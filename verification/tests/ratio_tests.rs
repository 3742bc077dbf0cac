use vocab_store::ratio::{is_float_text, ratio_literal};

fn std_reads(text: &str) -> bool {
    text.parse::<f64>().is_ok()
}

#[test]
fn numbers_in_decimal_notation_are_literals() {
    for text in ["0", "1", "007", "12.5", "12.", ".5", "1e5", "1E5", "1e+5", "1e-5", "1.e5", ".5E-10", "+1", "-1", "+.5", "-0.0", "1e0000000000000000001", "123456789012345678901234567890.5", "4e999", "4e-999"] {
        assert!(is_float_text(text), "{:?}", text);
        assert!(std_reads(text), "{:?}", text);
    }
}

#[test]
fn the_three_words_are_literals_in_any_case() {
    for text in ["inf", "INF", "Inf", "iNf", "infinity", "Infinity", "INFINITY", "iNfInItY", "nan", "NaN", "NAN", "+inf", "-inf", "+nan", "-NaN", "-Infinity"] {
        assert!(is_float_text(text), "{:?}", text);
        assert!(std_reads(text), "{:?}", text);
    }
}

#[test]
fn other_text_is_no_literal() {
    for text in ["", " ", "+", "-", ".", "+.", "e", "e5", ".e5", "1e", "1e+", "1e-", "1e5.0", "1.2.3", "1..2", "..", "1 ", " 1", "1_0", "0x10", "1f64", "1,5", "n/a", "abc", "in", "infi", "infinit", "infinityy", "na", "nann", "++1", "--1", "+-1", "1+", "1e++5", "１", "٣", "1e٣", "\u{2212}1", "inf ", "i nf", "ınf", "İnf", "\u{212a}", "1E", "1ee5", "1e5e5", "1.5.", "+inf+", "nan.0", "0.0.0", "1\n"] {
        assert!(!is_float_text(text), "{:?}", text);
        assert!(!std_reads(text), "{:?}", text);
    }
}

#[test]
fn short_texts_are_judged_as_the_standard_library_judges_them() {
    let alphabet: Vec<char> = "+-.eE019infatyINFATY x".chars().collect();
    let mut texts: Vec<String> = vec![String::new()];
    let mut from = 0;
    for _ in 0..4 {
        let upto = texts.len();
        for i in from..upto {
            for c in &alphabet {
                let mut longer = texts[i].clone();
                longer.push(*c);
                texts.push(longer);
            }
        }
        from = upto;
    }
    assert_eq!(texts.len(), 1 + 22 + 22 * 22 + 22 * 22 * 22 + 22 * 22 * 22 * 22);
    for text in &texts {
        assert_eq!(is_float_text(text), std_reads(text), "{:?}", text);
    }
}

#[test]
fn longer_texts_are_judged_as_the_standard_library_judges_them() {
    let alphabet: Vec<char> = "+.e1n".chars().collect();
    let mut texts: Vec<String> = vec![String::new()];
    let mut from = 0;
    for _ in 0..7 {
        let upto = texts.len();
        for i in from..upto {
            for c in &alphabet {
                let mut longer = texts[i].clone();
                longer.push(*c);
                texts.push(longer);
            }
        }
        from = upto;
    }
    for text in &texts {
        assert_eq!(is_float_text(text), std_reads(text), "{:?}", text);
    }
}

#[test]
fn words_around_infinity_are_judged_as_the_standard_library_judges_them() {
    let word = "infinity";
    for cut in 0..=word.len() {
        for sign in ["", "+", "-"] {
            for tail in ["", "y", " ", "0", "."] {
                let lower = format!("{}{}{}", sign, &word[..cut], tail);
                let upper = lower.to_uppercase();
                assert_eq!(is_float_text(&lower), std_reads(&lower), "{:?}", lower);
                assert_eq!(is_float_text(&upper), std_reads(&upper), "{:?}", upper);
            }
        }
    }
}

#[test]
fn a_literal_is_kept_and_other_text_becomes_zero() {
    assert_eq!(ratio_literal(&"0.25".to_string()), "0.25");
    assert_eq!(ratio_literal(&"1e-3".to_string()), "1e-3");
    assert_eq!(ratio_literal(&"-inf".to_string()), "-inf");
    assert_eq!(ratio_literal(&"".to_string()), "0.0");
    assert_eq!(ratio_literal(&"half".to_string()), "0.0");
    assert_eq!(ratio_literal(&" 0.5".to_string()), "0.0");
    assert_eq!(ratio_literal(&"50%".to_string()), "0.0");
}

#[test]
fn the_literal_reads_as_the_field_or_as_zero() {
    for field in ["0.25", "7", "1e2", "", "x", "1.2.3", "-4.5", "-0", "inf", " 1"] {
        let expected: f64 = field.parse().unwrap_or(0.0);
        let read: f64 = ratio_literal(&field.to_string()).parse().unwrap();
        assert_eq!(read.to_bits(), expected.to_bits(), "{:?}", field);
    }
}
