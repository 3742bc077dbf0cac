//! The import of delimited text.
//!
//! An import reads a text whose first line is a header and whose other lines
//! each describe one entry. The store that takes the entries is outside this
//! library, so the import is a conversation: [`ImportSession::advance`] hands
//! out the next entry to insert, the caller inserts it and answers with what
//! the store said, and [`PendingInsert::resolve`] books the answer. When no
//! line is left, `advance` hands out the report. [`import_with`] holds that
//! conversation with a function that does the inserting.
//!
//! What became of each line is kept in a log of verdicts, one for each line
//! that is done with. The report is a function of that log.

use vstd::prelude::*;
use crate::entry::{
    classify, classify_line, LineClass, LineKind, NewEntry, NewEntryView, FIELD_COUNT,
};
use crate::report::{ImportReport, ImportReportView};
use crate::text::{is_blank, lines_of, split_lines, split_on};

verus! {

/// What became of one line of the text.
pub enum Verdict {
    /// The first line: never read as an entry.
    Header,
    /// Nothing but whitespace: passed over, and counted nowhere.
    Blank,
    /// Not the right number of fields: skipped.
    Malformed,
    /// The store took the entry.
    Inserted,
    /// The store did not take the entry: skipped.
    Rejected,
}

/// The verdicts that put a line among the skipped ones.
pub open spec fn is_skipped(verdict: Verdict) -> bool {
    verdict is Malformed || verdict is Rejected
}

/// How many lines of the log the store took.
pub open spec fn inserted_count(log: Seq<Verdict>) -> nat
    decreases log.len(),
{
    if log.len() == 0 {
        0
    } else {
        inserted_count(log.drop_last()) + if log.last() is Inserted {
            1nat
        } else {
            0nat
        }
    }
}

/// The numbers of the skipped lines of the log, in rising order. The line at
/// index `i` has the number `i + 1`.
pub open spec fn skipped_lines(log: Seq<Verdict>) -> Seq<nat>
    decreases log.len(),
{
    if log.len() == 0 {
        Seq::<nat>::empty()
    } else if is_skipped(log.last()) {
        skipped_lines(log.drop_last()).push(log.len())
    } else {
        skipped_lines(log.drop_last())
    }
}

/// The report that a log comes to.
pub open spec fn report_of(log: Seq<Verdict>) -> ImportReportView {
    ImportReportView { inserted: inserted_count(log), skipped: skipped_lines(log) }
}

/// Whether the line at `index` describes an entry to insert: it is not the
/// header, not blank, and has the right number of fields.
pub open spec fn needs_insert(index: int, line: Seq<char>) -> bool {
    index > 0 && classify(line) is Row
}

/// The verdict on a line that describes no entry to insert.
pub open spec fn verdict_without_insert(index: int, line: Seq<char>) -> Verdict {
    if index == 0 {
        Verdict::Header
    } else if classify(line) is Blank {
        Verdict::Blank
    } else {
        Verdict::Malformed
    }
}

/// Whether `verdict` is one that the line at `index` can get.
pub open spec fn verdict_fits(index: int, line: Seq<char>, verdict: Verdict) -> bool {
    if needs_insert(index, line) {
        verdict is Inserted || verdict is Rejected
    } else {
        verdict == verdict_without_insert(index, line)
    }
}

/// Whether `log` is a log of the first lines of `lines`.
pub open spec fn log_fits(lines: Seq<Seq<char>>, log: Seq<Verdict>) -> bool {
    &&& log.len() <= lines.len()
    &&& forall|i: int| 0 <= i < log.len() ==> verdict_fits(i, lines[i], #[trigger] log[i])
}

/// The verdicts on the lines from `from` up to `to`, where none of them
/// describes an entry to insert.
pub open spec fn passed_over(lines: Seq<Seq<char>>, from: int, to: int) -> Seq<Verdict> {
    Seq::new((to - from) as nat, |k: int| verdict_without_insert(from + k, lines[from + k]))
}

/// Whether the store took the entry: it must say that it changed a row.
pub open spec fn insert_confirmed(answer: Result<usize, String>) -> bool {
    answer matches Ok(rows) && rows > 0
}

/// The verdict that the store's answer to an insert comes to.
pub open spec fn verdict_of(answer: Result<usize, String>) -> Verdict {
    if insert_confirmed(answer) {
        Verdict::Inserted
    } else {
        Verdict::Rejected
    }
}

/// How many of the first `upto` lines hold an entry, well-formed or not: the
/// header and the blank lines do not count.
pub open spec fn content_lines(lines: Seq<Seq<char>>, upto: int) -> nat
    decreases upto,
{
    if upto <= 1 {
        0
    } else {
        content_lines(lines, upto - 1) + if is_blank(lines[upto - 1]) {
            0nat
        } else {
            1nat
        }
    }
}

/// No log holds more inserted lines than lines.
pub proof fn lemma_inserted_count_bounded(log: Seq<Verdict>)
    ensures
        inserted_count(log) <= log.len(),
    decreases log.len(),
{
    if log.len() > 0 {
        lemma_inserted_count_bounded(log.drop_last());
    }
}

/// What one more verdict does to the counts.
proof fn lemma_log_push(log: Seq<Verdict>, verdict: Verdict)
    ensures
        inserted_count(log.push(verdict)) == inserted_count(log) + if verdict is Inserted {
            1nat
        } else {
            0nat
        },
        skipped_lines(log.push(verdict)) == if is_skipped(verdict) {
            skipped_lines(log).push(log.len() + 1)
        } else {
            skipped_lines(log)
        },
{
    assert(log.push(verdict).drop_last() == log);
}

/// A line number is among the skipped ones exactly when the log holds a
/// verdict for that line and the verdict is one that skips.
pub proof fn lemma_skipped_lines_are_the_skipped(log: Seq<Verdict>, number: nat)
    ensures
        skipped_lines(log).contains(number) <==> 1 <= number <= log.len() && is_skipped(
            log[number - 1],
        ),
    decreases log.len(),
{
    if log.len() > 0 {
        let before = log.drop_last();
        lemma_skipped_lines_are_the_skipped(before, number);
        if is_skipped(log.last()) {
            let listed = skipped_lines(before).push(log.len());
            if number == log.len() {
                assert(listed[listed.len() - 1] == number);
            } else if skipped_lines(before).contains(number) {
                let k = choose|k: int|
                    0 <= k < skipped_lines(before).len() && skipped_lines(before)[k] == number;
                assert(listed[k] == number);
            }
        }
    }
}

/// The skipped lines stand in rising order, so the first of them are the
/// earliest in the text.
pub proof fn lemma_skipped_lines_rise(log: Seq<Verdict>)
    ensures
        forall|a: int, b: int|
            0 <= a < b < skipped_lines(log).len() ==> skipped_lines(log)[a] < skipped_lines(
                log,
            )[b],
        forall|a: int|
            0 <= a < skipped_lines(log).len() ==> 1 <= #[trigger] skipped_lines(log)[a]
                <= log.len(),
    decreases log.len(),
{
    if log.len() > 0 {
        lemma_skipped_lines_rise(log.drop_last());
        if is_skipped(log.last()) {
            assert(skipped_lines(log) == skipped_lines(log.drop_last()).push(log.len()));
        }
    }
}

/// A line with fewer or more fields than an entry has is never inserted, and
/// its number is among the skipped ones. This holds of every line but the
/// header and the blank lines, which are passed over before their fields are
/// counted.
pub proof fn lemma_malformed_line_is_skipped(lines: Seq<Seq<char>>, log: Seq<Verdict>, i: int)
    requires
        log_fits(lines, log),
        0 < i < log.len(),
        !is_blank(lines[i]),
        split_on(lines[i], '\t').len() != FIELD_COUNT,
    ensures
        !(log[i] is Inserted),
        skipped_lines(log).contains((i + 1) as nat),
{
    lemma_skipped_lines_are_the_skipped(log, (i + 1) as nat);
}

/// Only a line with as many fields as an entry has is ever inserted, and never
/// the header or a blank line.
pub proof fn lemma_inserted_line_is_well_formed(lines: Seq<Seq<char>>, log: Seq<Verdict>, i: int)
    requires
        log_fits(lines, log),
        0 <= i < log.len(),
        log[i] is Inserted,
    ensures
        i > 0,
        !is_blank(lines[i]),
        split_on(lines[i], '\t').len() == FIELD_COUNT,
{
}

/// A blank line and the header are never inserted and never among the skipped
/// ones.
pub proof fn lemma_blank_line_is_not_counted(lines: Seq<Seq<char>>, log: Seq<Verdict>, i: int)
    requires
        log_fits(lines, log),
        0 <= i < log.len(),
        i == 0 || is_blank(lines[i]),
    ensures
        !(log[i] is Inserted),
        !skipped_lines(log).contains((i + 1) as nat),
{
    lemma_skipped_lines_are_the_skipped(log, (i + 1) as nat);
}

/// Every line that holds an entry is counted once: as inserted or as skipped.
pub proof fn lemma_every_line_is_accounted(lines: Seq<Seq<char>>, log: Seq<Verdict>)
    requires
        log_fits(lines, log),
    ensures
        inserted_count(log) + skipped_lines(log).len() == content_lines(lines, log.len() as int),
    decreases log.len(),
{
    if log.len() > 0 {
        lemma_every_line_is_accounted(lines, log.drop_last());
    }
}

/// The sum of the numbers in `counts`.
pub open spec fn total(counts: Seq<nat>) -> nat
    decreases counts.len(),
{
    if counts.len() == 0 {
        0
    } else {
        total(counts.drop_last()) + counts.last()
    }
}

/// Where the store gains one row with each line that counts as inserted and
/// none with any other line, the rows that it gains in all are as many as the
/// report says were inserted. `gained` holds, line by line, the number of rows
/// gained.
pub proof fn lemma_rows_gained_are_the_inserted(log: Seq<Verdict>, gained: Seq<nat>)
    requires
        gained.len() == log.len(),
        forall|i: int|
            0 <= i < log.len() ==> #[trigger] gained[i] == if log[i] is Inserted {
                1nat
            } else {
                0nat
            },
    ensures
        total(gained) == report_of(log).inserted,
    decreases log.len(),
{
    if log.len() > 0 {
        assert(gained.drop_last().len() == log.drop_last().len());
        lemma_rows_gained_are_the_inserted(log.drop_last(), gained.drop_last());
    }
}

/// Passing over lines that describe no entry to insert keeps a log fitting.
pub proof fn lemma_passing_over_fits(lines: Seq<Seq<char>>, log: Seq<Verdict>, to: int)
    requires
        log_fits(lines, log),
        log.len() <= to <= lines.len(),
        forall|i: int| log.len() <= i < to ==> !needs_insert(i, #[trigger] lines[i]),
    ensures
        log_fits(lines, log + passed_over(lines, log.len() as int, to)),
{
}

/// An import under way.
pub struct ImportSession {
    lines: Vec<String>,
    cursor: usize,
    inserted: usize,
    skipped: Vec<usize>,
    log: Ghost<Seq<Verdict>>,
}

/// An import that has handed out an entry and waits for the store's answer.
pub struct PendingInsert {
    session: ImportSession,
    row: NewEntry,
}

/// What an import asks of its caller next.
pub enum ImportStep {
    /// Insert this entry, then answer with `resolve`.
    Insert(PendingInsert),
    /// Nothing is left to insert: this is the report.
    Finished(ImportReport),
}

impl ImportSession {
    /// The lines of the text, the header included.
    pub closed spec fn lines(self) -> Seq<Seq<char>> {
        self.lines.deep_view()
    }

    /// What became of the lines that are done with.
    pub closed spec fn log(self) -> Seq<Verdict> {
        self.log@
    }

    #[verifier::type_invariant]
    spec fn consistent(self) -> bool {
        &&& self.cursor == self.log@.len()
        &&& log_fits(self.lines.deep_view(), self.log@)
        &&& self.inserted == inserted_count(self.log@)
        &&& self.skipped@.map_values(|n: usize| n as nat) == skipped_lines(self.log@)
    }

    /// Starts the import of `text`. No line is done with yet.
    pub fn new(text: &str) -> (session: ImportSession)
        ensures
            session.lines() == lines_of(text@),
            session.log() == Seq::<Verdict>::empty(),
            log_fits(session.lines(), session.log()),
    {
        let lines = split_lines(text);
        let skipped: Vec<usize> = Vec::new();
        assert(skipped@.map_values(|n: usize| n as nat) == Seq::<nat>::empty());
        ImportSession { lines, cursor: 0, inserted: 0, skipped, log: Ghost(Seq::empty()) }
    }

    /// Goes on to the next entry to insert, passing over the header, the blank
    /// lines and the lines with a wrong number of fields. Where no entry is
    /// left, the import is finished and the report is handed out.
    pub fn advance(self) -> (step: ImportStep)
        ensures
            match step {
                ImportStep::Insert(pending) => {
                    let at = pending.log().len() as int;
                    &&& pending.lines() == self.lines()
                    &&& self.log().len() <= at < self.lines().len()
                    &&& forall|i: int|
                        self.log().len() <= i < at ==> !needs_insert(i, #[trigger] self.lines()[i])
                    &&& pending.log() == self.log() + passed_over(
                        self.lines(),
                        self.log().len() as int,
                        at,
                    )
                    &&& at > 0
                    &&& classify(self.lines()[at]) == LineClass::Row(pending.entry())
                    &&& log_fits(pending.lines(), pending.log())
                },
                ImportStep::Finished(report) => {
                    let end = self.lines().len() as int;
                    &&& forall|i: int|
                        self.log().len() <= i < end ==> !needs_insert(i, #[trigger] self.lines()[i])
                    &&& report@ == report_of(
                        self.log() + passed_over(self.lines(), self.log().len() as int, end),
                    )
                },
            },
    {
        proof {
            use_type_invariant(&self);
        }
        let ghost all = self.lines.deep_view();
        let ghost start = self.log@;
        let ImportSession { lines, cursor, inserted, skipped, log } = self;
        let mut cursor: usize = cursor;
        let mut skipped: Vec<usize> = skipped;
        let mut log: Ghost<Seq<Verdict>> = log;
        while cursor < lines.len()
            invariant
                self.lines() == all,
                self.log() == start,
                log_fits(all, start),
                all == lines.deep_view(),
                cursor == log@.len(),
                cursor <= lines.len(),
                start.len() <= cursor,
                log_fits(all, log@),
                inserted == inserted_count(log@),
                skipped@.map_values(|n: usize| n as nat) == skipped_lines(log@),
                log@ == start + passed_over(all, start.len() as int, cursor as int),
                forall|i: int| start.len() <= i < cursor ==> !needs_insert(i, #[trigger] all[i]),
            decreases lines.len() - cursor,
        {
            if cursor > 0 {
                match classify_line(lines[cursor].as_str()) {
                    LineKind::Row(row) => {
                        return ImportStep::Insert(
                            PendingInsert {
                                session: ImportSession { lines, cursor, inserted, skipped, log },
                                row,
                            },
                        );
                    },
                    LineKind::Malformed => {
                        skipped.push(cursor + 1);
                    },
                    LineKind::Blank => {},
                }
            }
            let ghost verdict = verdict_without_insert(cursor as int, all[cursor as int]);
            proof {
                let passed = passed_over(all, start.len() as int, cursor as int);
                let longer = passed_over(all, start.len() as int, cursor as int + 1);
                lemma_log_push(log@, verdict);
                log@ = log@.push(verdict);
                assert(start + longer == (start + passed).push(verdict));
            }
            cursor = cursor + 1;
        }
        ImportStep::Finished(ImportReport { inserted, skipped })
    }
}

impl PendingInsert {
    /// The lines of the text, the header included.
    pub closed spec fn lines(self) -> Seq<Seq<char>> {
        self.session.lines()
    }

    /// What became of the lines before the one that holds the entry.
    pub closed spec fn log(self) -> Seq<Verdict> {
        self.session.log()
    }

    /// The entry to insert.
    pub closed spec fn entry(self) -> NewEntryView {
        self.row@
    }

    #[verifier::type_invariant]
    spec fn awaits_row(self) -> bool {
        &&& self.session.consistent()
        &&& 0 < self.session.cursor < self.session.lines@.len()
        &&& classify(self.session.lines.deep_view()[self.session.cursor as int]) == LineClass::Row(
            self.row@,
        )
    }

    /// The entry to insert.
    pub fn row(&self) -> (row: &NewEntry)
        ensures
            row@ == self.entry(),
    {
        &self.row
    }

    /// The number of the line that holds the entry, counted from one with the
    /// header as the first.
    pub fn line_number(&self) -> (number: usize)
        ensures
            number == self.log().len() + 1,
    {
        proof {
            use_type_invariant(self);
            use_type_invariant(&self.session);
        }
        assert(self.session.cursor < self.session.lines.len());
        self.session.cursor + 1
    }

    /// Books the store's answer to the insert and goes on. The line counts as
    /// inserted where the store says that it changed a row; where it changed
    /// none, or failed, the line is skipped.
    pub fn resolve(self, answer: Result<usize, String>) -> (session: ImportSession)
        ensures
            session.lines() == self.lines(),
            session.log() == self.log().push(verdict_of(answer)),
            log_fits(session.lines(), session.log()),
    {
        proof {
            use_type_invariant(&self);
            use_type_invariant(&self.session);
        }
        let PendingInsert { session, row: _ } = self;
        let ImportSession { lines, cursor, inserted, skipped, log } = session;
        assert(cursor < lines.len());
        let mut skipped: Vec<usize> = skipped;
        let confirmed: bool = match answer {
            Ok(rows) => rows > 0,
            Err(_) => false,
        };
        let ghost verdict = if confirmed {
            Verdict::Inserted
        } else {
            Verdict::Rejected
        };
        proof {
            lemma_log_push(log@, verdict);
            lemma_inserted_count_bounded(log@);
        }
        let ghost old_skipped = skipped@;
        let mut inserted: usize = inserted;
        if confirmed {
            inserted = inserted + 1;
        } else {
            skipped.push(cursor + 1);
            assert(skipped@.map_values(|n: usize| n as nat) == old_skipped.map_values(
                |n: usize| n as nat,
            ).push((cursor + 1) as nat));
        }
        ImportSession { lines, cursor: cursor + 1, inserted, skipped, log: Ghost(log@.push(verdict)) }
    }
}

/// Whether `verdict` is what some answer of `insert` comes to, when it is
/// called with the line number `number` and the entry `entry`.
pub open spec fn answered<F: Fn(usize, &NewEntry) -> Result<usize, String>>(
    insert: F,
    number: usize,
    entry: NewEntryView,
    verdict: Verdict,
) -> bool {
    exists|row: &NewEntry, answer: Result<usize, String>|
        {
            &&& row@ == entry
            &&& #[trigger] insert.ensures((number, row), answer)
            &&& verdict == verdict_of(answer)
        }
}

/// Whether each line of the log that describes an entry has the verdict that
/// an answer of `insert` to that entry comes to.
pub open spec fn log_answered<F: Fn(usize, &NewEntry) -> Result<usize, String>>(
    insert: F,
    lines: Seq<Seq<char>>,
    log: Seq<Verdict>,
) -> bool {
    forall|i: int|
        0 <= i < log.len() && needs_insert(i, lines[i]) ==> answered(
            insert,
            (i + 1) as usize,
            classify(lines[i])->Row_0,
            #[trigger] log[i],
        )
}

/// Imports `text` into a store that is reached through `insert`: a function
/// that takes the number of a line and the entry that the line describes,
/// inserts the entry and returns the store's answer.
///
/// Every line of the text gets its verdict, and the report is the one that
/// these verdicts come to. The header, the blank lines and the lines with a
/// wrong number of fields never reach `insert`. For a line that describes an
/// entry, the verdict is what an answer of `insert` to that line comes to.
///
/// `insert` is called through a shared reference: what it has to change while
/// it inserts, such as a prepared statement, it keeps behind a cell.
pub fn import_with<F: Fn(usize, &NewEntry) -> Result<usize, String>>(text: &str, insert: F) -> (report:
    ImportReport)
    requires
        forall|number: usize, row: &NewEntry| insert.requires((number, row)),
    ensures
        exists|log: Seq<Verdict>|
            {
                &&& log.len() == lines_of(text@).len()
                &&& log_fits(lines_of(text@), log)
                &&& log_answered(insert, lines_of(text@), log)
                &&& #[trigger] report_of(log) == report@
            },
{
    let ghost lines = lines_of(text@);
    let mut session = ImportSession::new(text);
    loop
        invariant
            forall|number: usize, row: &NewEntry| insert.requires((number, row)),
            lines == lines_of(text@),
            session.lines() == lines,
            log_fits(lines, session.log()),
            log_answered(insert, lines, session.log()),
        decreases lines.len() - session.log().len(),
    {
        let ghost before = session.log();
        match session.advance() {
            ImportStep::Insert(pending) => {
                let ghost passed = pending.log();
                let number = pending.line_number();
                let row = pending.row();
                let answer = insert(number, row);
                assert(answered(insert, number, pending.entry(), verdict_of(answer))) by {
                    assert(insert.ensures((number, row), answer));
                }
                session = pending.resolve(answer);
                assert(log_answered(insert, lines, session.log())) by {
                    assert forall|i: int|
                        0 <= i < session.log().len() && needs_insert(i, lines[i]) implies answered(
                        insert,
                        (i + 1) as usize,
                        classify(lines[i])->Row_0,
                        #[trigger] session.log()[i],
                    ) by {
                        if i < before.len() {
                            assert(session.log()[i] == before[i]);
                        } else if i < passed.len() {
                            assert(!needs_insert(i, lines[i]));
                        }
                    }
                }
            },
            ImportStep::Finished(report) => {
                proof {
                    let log = before + passed_over(lines, before.len() as int, lines.len() as int);
                    lemma_passing_over_fits(lines, before, lines.len() as int);
                    assert forall|i: int|
                        0 <= i < log.len() && needs_insert(i, lines[i]) implies answered(
                        insert,
                        (i + 1) as usize,
                        classify(lines[i])->Row_0,
                        #[trigger] log[i],
                    ) by {
                        if i < before.len() {
                            assert(log[i] == before[i]);
                        } else {
                            assert(!needs_insert(i, lines[i]));
                        }
                    }
                    assert(report_of(log) == report@);
                }
                return report;
            },
        }
    }
}

} // verus!
