//! Listing the stored entries.

use vstd::prelude::*;
use crate::entry::VocabularyEntry;

verus! {

/// Gathers the rows of a listing, each read from the store as an entry or as
/// the message of what went wrong with it.
///
/// One row that failed fails the listing, with the message of the first such
/// row. Otherwise the listing holds every entry, in the order of the rows.
pub fn collect_entries(rows: Vec<Result<VocabularyEntry, String>>) -> (listing: Result<
    Vec<VocabularyEntry>,
    String,
>)
    ensures
        match listing {
            Ok(entries) => {
                &&& entries@.len() == rows@.len()
                &&& forall|i: int|
                    0 <= i < rows@.len() ==> #[trigger] rows@[i] == Ok::<VocabularyEntry, String>(
                        entries@[i],
                    )
            },
            Err(message) => exists|i: int|
                {
                    &&& 0 <= i < rows@.len()
                    &&& #[trigger] rows@[i] == Err::<VocabularyEntry, String>(message)
                    &&& forall|j: int| 0 <= j < i ==> (#[trigger] rows@[j]) is Ok
                },
        },
{
    let mut entries: Vec<VocabularyEntry> = Vec::new();
    for row in it: rows.into_iter()
        invariant
            it.seq() == rows@,
            entries@.len() == it.index(),
            forall|i: int|
                0 <= i < it.index() ==> #[trigger] rows@[i] == Ok::<VocabularyEntry, String>(
                    entries@[i],
                ),
    {
        match row {
            Ok(entry) => {
                entries.push(entry);
            },
            Err(message) => {
                return Err(message);
            },
        }
    }
    Ok(entries)
}

} // verus!
