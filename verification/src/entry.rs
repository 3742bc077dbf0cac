//! Vocabulary records: the stored entry, the entry as a line of an import
//! describes it, and the reading of one line.

use vstd::prelude::*;
use crate::number::{parse_i64, parse_integer};
use crate::ratio::{is_float_literal, lemma_zero_is_a_literal, ratio_literal, ratio_or_zero};
use crate::text::{is_blank, line_is_blank, split_on, split_text};

verus! {

/// How many tab-separated fields a line of an import holds.
pub const FIELD_COUNT: usize = 12;

/// The statement that reads every stored entry. Its columns stand in the order
/// of the fields of [`VocabularyEntry`].
pub const SELECT_ENTRIES_STATEMENT: &'static str =
    "SELECT vocab_id, english, furigana, japanese, times_seen, recently_missed_percent, flag, public_notes, personal_notes, book, chapter, section, word_category FROM vocabulary";

/// The statement that stores one new entry. Its parameters stand in the order
/// of the fields of [`NewEntry`], which is the order of the fields of a line.
pub const INSERT_ENTRY_STATEMENT: &'static str =
    "INSERT INTO vocabulary (english, furigana, japanese, chapter, word_category, times_seen, recently_missed_percent, flag, public_notes, personal_notes, book, section) VALUES (?1, ?2, ?3, ?4, ?5, ?6, ?7, ?8, ?9, ?10, ?11, ?12)";

/// One stored vocabulary entry.
///
/// `vocab_id` is given by the store and never changes. The ratio of recent
/// misses is a binary64 number; it is held here by its bit pattern.
#[derive(Debug, Clone, PartialEq, Eq)]
pub struct VocabularyEntry {
    pub vocab_id: i64,
    pub english: Option<String>,
    pub furigana: Option<String>,
    pub japanese: Option<String>,
    pub times_seen: i64,
    pub recently_missed_percent_bits: u64,
    pub flag: i64,
    pub public_notes: Option<String>,
    pub personal_notes: Option<String>,
    pub book: Option<String>,
    pub chapter: i64,
    pub section: i64,
    pub word_category: Option<String>,
}

/// A stored entry as a plain value.
pub struct VocabularyEntryView {
    pub vocab_id: i64,
    pub english: Option<Seq<char>>,
    pub furigana: Option<Seq<char>>,
    pub japanese: Option<Seq<char>>,
    pub times_seen: i64,
    pub recently_missed_percent_bits: u64,
    pub flag: i64,
    pub public_notes: Option<Seq<char>>,
    pub personal_notes: Option<Seq<char>>,
    pub book: Option<Seq<char>>,
    pub chapter: i64,
    pub section: i64,
    pub word_category: Option<Seq<char>>,
}

/// An entry as one line of an import describes it; the store gives it its
/// identity when it is inserted.
///
/// `recently_missed_percent` is the literal of a floating-point number: the
/// field's text where that denotes such a number, and `0.0` where it does not.
/// Where the entry is stored the literal is read as a binary64 number.
#[derive(Debug, Clone, PartialEq, Eq)]
pub struct NewEntry {
    pub english: Option<String>,
    pub furigana: Option<String>,
    pub japanese: Option<String>,
    pub chapter: Option<i64>,
    pub word_category: Option<String>,
    pub times_seen: i64,
    pub recently_missed_percent: String,
    pub flag: i64,
    pub public_notes: Option<String>,
    pub personal_notes: Option<String>,
    pub book: Option<String>,
    pub section: Option<i64>,
}

/// A new entry as a plain value.
pub struct NewEntryView {
    pub english: Option<Seq<char>>,
    pub furigana: Option<Seq<char>>,
    pub japanese: Option<Seq<char>>,
    pub chapter: Option<i64>,
    pub word_category: Option<Seq<char>>,
    pub times_seen: i64,
    pub recently_missed_percent: Seq<char>,
    pub flag: i64,
    pub public_notes: Option<Seq<char>>,
    pub personal_notes: Option<Seq<char>>,
    pub book: Option<Seq<char>>,
    pub section: Option<i64>,
}

/// What the reading of one line of an import comes to.
#[derive(Debug, Clone, PartialEq, Eq)]
pub enum LineKind {
    /// Nothing but whitespace: the line is passed over.
    Blank,
    /// Not blank, and not twelve fields: the line is refused.
    Malformed,
    /// Twelve fields: the entry that they describe.
    Row(NewEntry),
}

/// A line's reading as a plain value.
pub enum LineClass {
    Blank,
    Malformed,
    Row(NewEntryView),
}

/// A text field as a plain value.
pub open spec fn text_view(text: Option<String>) -> Option<Seq<char>> {
    match text {
        Some(s) => Some(s@),
        None => None,
    }
}

impl View for VocabularyEntry {
    type V = VocabularyEntryView;

    open spec fn view(&self) -> VocabularyEntryView {
        VocabularyEntryView {
            vocab_id: self.vocab_id,
            english: text_view(self.english),
            furigana: text_view(self.furigana),
            japanese: text_view(self.japanese),
            times_seen: self.times_seen,
            recently_missed_percent_bits: self.recently_missed_percent_bits,
            flag: self.flag,
            public_notes: text_view(self.public_notes),
            personal_notes: text_view(self.personal_notes),
            book: text_view(self.book),
            chapter: self.chapter,
            section: self.section,
            word_category: text_view(self.word_category),
        }
    }
}

impl View for NewEntry {
    type V = NewEntryView;

    open spec fn view(&self) -> NewEntryView {
        NewEntryView {
            english: text_view(self.english),
            furigana: text_view(self.furigana),
            japanese: text_view(self.japanese),
            chapter: self.chapter,
            word_category: text_view(self.word_category),
            times_seen: self.times_seen,
            recently_missed_percent: self.recently_missed_percent@,
            flag: self.flag,
            public_notes: text_view(self.public_notes),
            personal_notes: text_view(self.personal_notes),
            book: text_view(self.book),
            section: self.section,
        }
    }
}

impl View for LineKind {
    type V = LineClass;

    open spec fn view(&self) -> LineClass {
        match self {
            LineKind::Blank => LineClass::Blank,
            LineKind::Malformed => LineClass::Malformed,
            LineKind::Row(entry) => LineClass::Row(entry@),
        }
    }
}

/// A text field: the empty field stands for no text at all.
pub open spec fn text_or_absent(field: Seq<char>) -> Option<Seq<char>> {
    if field.len() == 0 {
        None
    } else {
        Some(field)
    }
}

/// A counting field: a field that is no integer counts as zero.
pub open spec fn integer_or_zero(field: Seq<char>) -> i64 {
    match parse_i64(field) {
        Some(v) => v,
        None => 0,
    }
}

/// The entry that twelve fields describe. Their order is: english, furigana,
/// japanese, chapter, word category, times seen, ratio of recent misses, flag,
/// public notes, personal notes, book, section.
pub open spec fn entry_of(fields: Seq<Seq<char>>) -> NewEntryView {
    NewEntryView {
        english: text_or_absent(fields[0]),
        furigana: text_or_absent(fields[1]),
        japanese: text_or_absent(fields[2]),
        chapter: parse_i64(fields[3]),
        word_category: text_or_absent(fields[4]),
        times_seen: integer_or_zero(fields[5]),
        recently_missed_percent: ratio_or_zero(fields[6]),
        flag: integer_or_zero(fields[7]),
        public_notes: text_or_absent(fields[8]),
        personal_notes: text_or_absent(fields[9]),
        book: text_or_absent(fields[10]),
        section: parse_i64(fields[11]),
    }
}

/// The reading of one line. Blankness is settled first, so a line of tabs and
/// spaces alone is blank however many fields it has.
pub open spec fn classify(line: Seq<char>) -> LineClass {
    if is_blank(line) {
        LineClass::Blank
    } else if split_on(line, '\t').len() != FIELD_COUNT {
        LineClass::Malformed
    } else {
        LineClass::Row(entry_of(split_on(line, '\t')))
    }
}

/// An empty text field of a line leaves the entry without that text; any
/// other field is taken as it stands.
pub proof fn lemma_empty_text_is_absent(line: Seq<char>)
    requires
        classify(line) is Row,
    ensures
        ({
            let fields = split_on(line, '\t');
            let entry = classify(line)->Row_0;
            &&& entry.english is None <==> fields[0].len() == 0
            &&& entry.furigana is None <==> fields[1].len() == 0
            &&& entry.japanese is None <==> fields[2].len() == 0
            &&& entry.word_category is None <==> fields[4].len() == 0
            &&& entry.public_notes is None <==> fields[8].len() == 0
            &&& entry.personal_notes is None <==> fields[9].len() == 0
            &&& entry.book is None <==> fields[10].len() == 0
            &&& entry.english is Some ==> entry.english->0 == fields[0]
            &&& entry.furigana is Some ==> entry.furigana->0 == fields[1]
            &&& entry.japanese is Some ==> entry.japanese->0 == fields[2]
            &&& entry.word_category is Some ==> entry.word_category->0 == fields[4]
            &&& entry.public_notes is Some ==> entry.public_notes->0 == fields[8]
            &&& entry.personal_notes is Some ==> entry.personal_notes->0 == fields[9]
            &&& entry.book is Some ==> entry.book->0 == fields[10]
        }),
{
}

/// Where the field for the times seen or for the flag is no integer, the entry
/// has zero there; where the field for the chapter or for the section is no
/// integer, the entry has none; where the field for the ratio is no number,
/// the entry has the literal of zero.
pub proof fn lemma_unreadable_numbers(line: Seq<char>)
    requires
        classify(line) is Row,
    ensures
        ({
            let fields = split_on(line, '\t');
            let entry = classify(line)->Row_0;
            &&& parse_i64(fields[5]) is None ==> entry.times_seen == 0
            &&& parse_i64(fields[7]) is None ==> entry.flag == 0
            &&& parse_i64(fields[3]) is None ==> entry.chapter is None
            &&& parse_i64(fields[11]) is None ==> entry.section is None
            &&& parse_i64(fields[5]) is Some ==> entry.times_seen == parse_i64(fields[5])->0
            &&& parse_i64(fields[7]) is Some ==> entry.flag == parse_i64(fields[7])->0
            &&& entry.chapter == parse_i64(fields[3])
            &&& entry.section == parse_i64(fields[11])
            &&& is_float_literal(fields[6]) ==> entry.recently_missed_percent == fields[6]
            &&& !is_float_literal(fields[6]) ==> entry.recently_missed_percent == seq!['0', '.', '0']
            &&& is_float_literal(entry.recently_missed_percent)
        }),
{
    lemma_zero_is_a_literal();
}

/// A text field of a line.
pub fn optional_text(field: &String) -> (r: Option<String>)
    ensures
        text_view(r) == text_or_absent(field@),
{
    if field.as_str().is_empty() {
        None
    } else {
        Some(field.clone())
    }
}

/// A counting field of a line.
pub fn integer_or_default(field: &String) -> (r: i64)
    ensures
        r == integer_or_zero(field@),
{
    match parse_integer(field.as_str()) {
        Some(v) => v,
        None => 0,
    }
}

impl NewEntry {
    /// The entry that the fields of a line describe, if there are twelve of
    /// them.
    pub fn from_fields(fields: &Vec<String>) -> (r: Option<NewEntry>)
        ensures
            match r {
                Some(entry) => fields.len() == FIELD_COUNT && entry@ == entry_of(
                    fields.deep_view(),
                ),
                None => fields.len() != FIELD_COUNT,
            },
    {
        if fields.len() != FIELD_COUNT {
            return None;
        }
        Some(
            NewEntry {
                english: optional_text(&fields[0]),
                furigana: optional_text(&fields[1]),
                japanese: optional_text(&fields[2]),
                chapter: parse_integer(fields[3].as_str()),
                word_category: optional_text(&fields[4]),
                times_seen: integer_or_default(&fields[5]),
                recently_missed_percent: ratio_literal(&fields[6]),
                flag: integer_or_default(&fields[7]),
                public_notes: optional_text(&fields[8]),
                personal_notes: optional_text(&fields[9]),
                book: optional_text(&fields[10]),
                section: parse_integer(fields[11].as_str()),
            },
        )
    }
}

/// Reads one line of an import.
pub fn classify_line(line: &str) -> (kind: LineKind)
    ensures
        kind@ == classify(line@),
{
    if line_is_blank(line) {
        return LineKind::Blank;
    }
    let fields = split_text(line, '\t');
    match NewEntry::from_fields(&fields) {
        Some(entry) => LineKind::Row(entry),
        None => LineKind::Malformed,
    }
}

} // verus!
