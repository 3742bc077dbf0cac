use vocab_store::entry::{
    classify_line, integer_or_default, optional_text, LineKind, NewEntry, FIELD_COUNT,
};

fn fields(values: [&str; 12]) -> Vec<String> {
    values.iter().map(|v| v.to_string()).collect()
}

fn row_of(line: &str) -> NewEntry {
    match classify_line(line) {
        LineKind::Row(entry) => entry,
        other => panic!("no row: {:?}", other),
    }
}

#[test]
fn a_line_has_twelve_fields() {
    assert_eq!(FIELD_COUNT, 12);
}

#[test]
fn the_fields_are_taken_in_their_order() {
    let entry = row_of("dog\tいぬ\t犬\t4\tnoun\t17\t0.25\t2\tcommon\tmine\tGenki\t9");
    assert_eq!(
        entry,
        NewEntry {
            english: Some("dog".to_string()),
            furigana: Some("いぬ".to_string()),
            japanese: Some("犬".to_string()),
            chapter: Some(4),
            word_category: Some("noun".to_string()),
            times_seen: 17,
            recently_missed_percent: "0.25".to_string(),
            flag: 2,
            public_notes: Some("common".to_string()),
            personal_notes: Some("mine".to_string()),
            book: Some("Genki".to_string()),
            section: Some(9),
        }
    );
}

#[test]
fn known_good_line_maps_each_column() {
    let entry = row_of("Hello\tこんにちは\tこんにちは\t1\tgreeting\t\t\t\t\t\tTextbookA\t3");
    assert_eq!(entry.english.as_deref(), Some("Hello"));
    assert_eq!(entry.furigana.as_deref(), Some("こんにちは"));
    assert_eq!(entry.japanese.as_deref(), Some("こんにちは"));
    assert_eq!(entry.chapter, Some(1));
    assert_eq!(entry.word_category.as_deref(), Some("greeting"));
    assert_eq!(entry.times_seen, 0);
    assert_eq!(entry.recently_missed_percent, "0.0");
    assert_eq!(entry.flag, 0);
    assert_eq!(entry.public_notes, None);
    assert_eq!(entry.personal_notes, None);
    assert_eq!(entry.book.as_deref(), Some("TextbookA"));
    assert_eq!(entry.section, Some(3));
}

#[test]
fn the_line_with_one_tab_too_many_is_malformed() {
    let line = "Hello\tこんにちは\tこんにちは\t1\tgreeting\t\t\t\t\t\t\tTextbookA\t3";
    assert_eq!(line.split('\t').count(), 13);
    assert_eq!(classify_line(line), LineKind::Malformed);
}

#[test]
fn an_empty_text_field_is_absent() {
    let entry = row_of("\t\t\t1\t\t2\t0.5\t3\t\t\t\t4");
    assert_eq!(entry.english, None);
    assert_eq!(entry.furigana, None);
    assert_eq!(entry.japanese, None);
    assert_eq!(entry.word_category, None);
    assert_eq!(entry.public_notes, None);
    assert_eq!(entry.personal_notes, None);
    assert_eq!(entry.book, None);
}

#[test]
fn a_text_field_of_spaces_is_kept() {
    let entry = row_of("a\t \tb\t1\t  \t0\t0\t0\t\t\t\t1");
    assert_eq!(entry.furigana.as_deref(), Some(" "));
    assert_eq!(entry.word_category.as_deref(), Some("  "));
}

#[test]
fn times_seen_and_flag_default_to_zero() {
    let entry = row_of("a\tb\tc\t1\td\tmany\t0.5\tyes\te\tf\tg\t2");
    assert_eq!(entry.times_seen, 0);
    assert_eq!(entry.flag, 0);
    let empty = row_of("a\tb\tc\t1\td\t\t0.5\t\te\tf\tg\t2");
    assert_eq!(empty.times_seen, 0);
    assert_eq!(empty.flag, 0);
    let large = row_of("a\tb\tc\t1\td\t9223372036854775808\t0.5\t1.0\te\tf\tg\t2");
    assert_eq!(large.times_seen, 0);
    assert_eq!(large.flag, 0);
}

#[test]
fn chapter_and_section_are_absent_when_unreadable() {
    let entry = row_of("a\tb\tc\tone\td\t1\t0.5\t1\te\tf\tg\t");
    assert_eq!(entry.chapter, None);
    assert_eq!(entry.section, None);
    let spaced = row_of("a\tb\tc\t 1\td\t1\t0.5\t1\te\tf\tg\t2 ");
    assert_eq!(spaced.chapter, None);
    assert_eq!(spaced.section, None);
}

#[test]
fn negative_and_signed_numbers_are_read() {
    let entry = row_of("a\tb\tc\t-1\td\t+5\t0.5\t-7\te\tf\tg\t+2");
    assert_eq!(entry.chapter, Some(-1));
    assert_eq!(entry.times_seen, 5);
    assert_eq!(entry.flag, -7);
    assert_eq!(entry.section, Some(2));
}

#[test]
fn the_ratio_is_kept_as_its_literal() {
    assert_eq!(row_of("a\tb\tc\t1\td\t1\t12.5\t1\te\tf\tg\t2").recently_missed_percent, "12.5");
    assert_eq!(row_of("a\tb\tc\t1\td\t1\t1e-2\t1\te\tf\tg\t2").recently_missed_percent, "1e-2");
}

#[test]
fn a_ratio_that_is_no_number_is_zero() {
    assert_eq!(row_of("a\tb\tc\t1\td\t1\tn/a\t1\te\tf\tg\t2").recently_missed_percent, "0.0");
    assert_eq!(row_of("a\tb\tc\t1\td\t1\t\t1\te\tf\tg\t2").recently_missed_percent, "0.0");
    assert_eq!(row_of("a\tb\tc\t1\td\t1\t 0.5\t1\te\tf\tg\t2").recently_missed_percent, "0.0");
}

#[test]
fn too_few_fields_are_malformed() {
    assert_eq!(classify_line("a"), LineKind::Malformed);
    assert_eq!(classify_line("a\tb\tc\t1\td\t1\t0.5\t1\te\tf\tg"), LineKind::Malformed);
}

#[test]
fn too_many_fields_are_malformed() {
    assert_eq!(classify_line("a\tb\tc\t1\td\t1\t0.5\t1\te\tf\tg\t2\t"), LineKind::Malformed);
    assert_eq!(classify_line("a\tb\tc\t1\td\t1\t0.5\t1\te\tf\tg\t2\textra"), LineKind::Malformed);
}

#[test]
fn whitespace_alone_is_blank_whatever_the_fields() {
    assert_eq!(classify_line(""), LineKind::Blank);
    assert_eq!(classify_line("   "), LineKind::Blank);
    assert_eq!(classify_line("\t"), LineKind::Blank);
    assert_eq!(classify_line("\t\t\t\t\t\t\t\t\t\t\t"), LineKind::Blank);
    assert_eq!(classify_line(" \t \t\r"), LineKind::Blank);
}

#[test]
fn a_carriage_return_stays_in_the_last_field() {
    let entry = row_of("a\tb\tc\t1\td\t1\t0.5\t1\te\tf\tg\t2\r");
    assert_eq!(entry.section, None);
    let text = row_of("a\tb\tc\t1\td\t1\t0.5\t1\te\tf\tg\r\t2");
    assert_eq!(text.book.as_deref(), Some("g\r"));
}

#[test]
fn from_fields_wants_twelve() {
    let twelve = fields(["a", "", "c", "1", "", "x", "y", "3", "", "", "", "z"]);
    let entry = NewEntry::from_fields(&twelve).expect("twelve fields");
    assert_eq!(entry.english.as_deref(), Some("a"));
    assert_eq!(entry.furigana, None);
    assert_eq!(entry.chapter, Some(1));
    assert_eq!(entry.times_seen, 0);
    assert_eq!(entry.recently_missed_percent, "0.0");
    assert_eq!(entry.flag, 3);
    assert_eq!(entry.section, None);
    let mut eleven = twelve.clone();
    eleven.pop();
    assert_eq!(NewEntry::from_fields(&eleven), None);
    let mut thirteen = twelve.clone();
    thirteen.push(String::new());
    assert_eq!(NewEntry::from_fields(&thirteen), None);
    assert_eq!(NewEntry::from_fields(&Vec::new()), None);
}

#[test]
fn optional_text_drops_only_the_empty_field() {
    assert_eq!(optional_text(&String::new()), None);
    assert_eq!(optional_text(&"x".to_string()), Some("x".to_string()));
    assert_eq!(optional_text(&" ".to_string()), Some(" ".to_string()));
}

#[test]
fn integer_or_default_falls_back_to_zero() {
    assert_eq!(integer_or_default(&"12".to_string()), 12);
    assert_eq!(integer_or_default(&"-12".to_string()), -12);
    assert_eq!(integer_or_default(&"".to_string()), 0);
    assert_eq!(integer_or_default(&"twelve".to_string()), 0);
}
