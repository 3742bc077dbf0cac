//! The outcome of an import and the status line that tells of it.

use vstd::prelude::*;
use vstd::string::*;
use crate::number::{decimal, push_decimal};

verus! {

/// How many skipped lines the status line names at most.
pub const SAMPLE_SIZE: usize = 5;

/// What an import came to: how many entries the store took, and the numbers of
/// the lines that were skipped, in the order of the text. Lines are numbered
/// from one, the header included, so the first data line is line two.
#[derive(Debug, Clone, PartialEq, Eq)]
pub struct ImportReport {
    pub inserted: usize,
    pub skipped: Vec<usize>,
}

/// A report as a plain value.
pub struct ImportReportView {
    pub inserted: nat,
    pub skipped: Seq<nat>,
}

impl View for ImportReport {
    type V = ImportReportView;

    open spec fn view(&self) -> ImportReportView {
        ImportReportView {
            inserted: self.inserted as nat,
            skipped: self.skipped@.map_values(|n: usize| n as nat),
        }
    }
}

/// The skipped lines that the status line names: the first five, or all of
/// them where there are fewer.
pub open spec fn sample_of(skipped: Seq<nat>) -> Seq<nat> {
    if skipped.len() <= SAMPLE_SIZE {
        skipped
    } else {
        skipped.take(SAMPLE_SIZE as int)
    }
}

/// Numbers in base ten with a comma and a space between neighbours.
pub open spec fn listed(numbers: Seq<nat>) -> Seq<char>
    decreases numbers.len(),
{
    if numbers.len() == 0 {
        Seq::<char>::empty()
    } else if numbers.len() == 1 {
        decimal(numbers[0])
    } else {
        listed(numbers.drop_last()) + ", "@ + decimal(numbers.last())
    }
}

/// What the status line says of the skipped lines; nothing where none was
/// skipped.
pub open spec fn skipped_text(skipped: Seq<nat>) -> Seq<char> {
    if skipped.len() == 0 {
        Seq::<char>::empty()
    } else {
        " Skipped "@ + decimal(skipped.len()) + " lines (e.g., ["@ + listed(sample_of(skipped))
            + "]). Check logs for details."@
    }
}

/// The status line of an import.
pub open spec fn status_text(inserted: nat, skipped: Seq<nat>) -> Seq<char> {
    "Successfully inserted "@ + decimal(inserted) + " entries."@ + skipped_text(skipped)
}

/// The steps of an import at which the store can fail it as a whole.
#[derive(Clone, Copy, PartialEq, Eq, Debug)]
pub enum ImportStage {
    BeginTransaction,
    PrepareStatement,
    CommitTransaction,
}

/// How the message of a failed import begins.
pub open spec fn stage_text(stage: ImportStage) -> Seq<char> {
    match stage {
        ImportStage::BeginTransaction => "Failed to start transaction: "@,
        ImportStage::PrepareStatement => "Failed to prepare statement: "@,
        ImportStage::CommitTransaction => "Failed to commit transaction: "@,
    }
}

/// The message of an import that failed as a whole.
pub open spec fn failure_text(stage: ImportStage, detail: Seq<char>) -> Seq<char> {
    stage_text(stage) + detail
}

/// The message of an import that failed as a whole at `stage`, where `detail`
/// is what the store said.
pub fn import_failure(stage: ImportStage, detail: &str) -> (message: String)
    ensures
        message@ == failure_text(stage, detail@),
{
    let mut message: String = String::new();
    match stage {
        ImportStage::BeginTransaction => message.append("Failed to start transaction: "),
        ImportStage::PrepareStatement => message.append("Failed to prepare statement: "),
        ImportStage::CommitTransaction => message.append("Failed to commit transaction: "),
    }
    message.append(detail);
    message
}

/// What the import returns once every line is done with and the store has
/// answered the commit: the status line where the commit went through, the
/// message of the failure where it did not.
pub fn conclude(report: &ImportReport, commit: Result<(), String>) -> (outcome: Result<
    String,
    String,
>)
    ensures
        match commit {
            Ok(_) => outcome matches Ok(line) && line@ == status_text(
                report@.inserted,
                report@.skipped,
            ),
            Err(detail) => outcome matches Err(message) && message@ == failure_text(
                ImportStage::CommitTransaction,
                detail@,
            ),
        },
{
    match commit {
        Ok(_) => Ok(report.status()),
        Err(detail) => Err(import_failure(ImportStage::CommitTransaction, detail.as_str())),
    }
}

impl ImportReport {
    /// The status line: the count of inserted entries and, where lines were
    /// skipped, their count and the numbers of the first five.
    pub fn status(&self) -> (line: String)
        ensures
            line@ == status_text(self@.inserted, self@.skipped),
    {
        let mut line: String = String::new();
        line.append("Successfully inserted ");
        push_decimal(&mut line, self.inserted as u64);
        line.append(" entries.");
        let count: usize = self.skipped.len();
        if count > 0 {
            let ghost skipped = self@.skipped;
            line.append(" Skipped ");
            push_decimal(&mut line, count as u64);
            line.append(" lines (e.g., [");
            let ghost opened = line@;
            let shown: usize = if count <= SAMPLE_SIZE {
                count
            } else {
                SAMPLE_SIZE
            };
            assert(sample_of(skipped) == skipped.take(shown as int));
            let mut i: usize = 0;
            while i < shown
                invariant
                    i <= shown <= self.skipped.len(),
                    skipped == self@.skipped,
                    line@ == opened + listed(skipped.take(i as int)),
                decreases shown - i,
            {
                assert(skipped.take(i as int + 1).drop_last() == skipped.take(i as int));
                if i > 0 {
                    line.append(", ");
                }
                push_decimal(&mut line, self.skipped[i] as u64);
                i += 1;
            }
            line.append("]). Check logs for details.");
        }
        line
    }
}

} // verus!
