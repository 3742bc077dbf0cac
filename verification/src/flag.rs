//! Setting the flag of one stored entry.

use vstd::prelude::*;
use vstd::string::*;
use crate::number::{push_signed_decimal, signed_decimal};

verus! {

/// A connection to an SQLite database, of the crate `rusqlite`. Nothing inside
/// it is seen here.
#[verifier::external_type_specification]
#[verifier::external_body]
pub struct ExConnection(rusqlite::Connection);

/// What `rusqlite` reports when a call fails. Nothing inside it is seen here.
#[verifier::external_type_specification]
#[verifier::external_body]
pub struct ExStoreError(rusqlite::Error);

/// The statement that sets the flag of the entry with a given identity. Its
/// first parameter is the flag, its second the identity.
pub const SET_FLAG_STATEMENT: &'static str = "UPDATE vocabulary SET flag = ?1 WHERE vocab_id = ?2";

/// What is sent to the store to set a flag: the statement, and the values of
/// its two parameters in their order.
#[derive(Debug, Clone, Copy, PartialEq, Eq)]
pub struct FlagUpdate {
    /// The text of the statement.
    pub statement: &'static str,
    /// The value of the first parameter: the flag to set.
    pub flag: i64,
    /// The value of the second parameter: the identity of the entry.
    pub id: i64,
}

/// The message of a flag update that failed, where `detail` is what the store
/// said.
pub open spec fn flag_failure_text(id: i64, detail: Seq<char>) -> Seq<char> {
    "Failed to update flag for id "@ + signed_decimal(id as int) + ": "@ + detail
}

/// `rusqlite::Connection::execute` with two integer parameters, bound in the
/// order given. It prepares `sql`, binds, runs the statement once and returns
/// the number of rows that the statement changed, or the error of the step that
/// failed. What comes back depends on the database, so nothing is claimed of
/// it. Trusted, not proved.
#[verifier::external_body]
fn execute_with_integers(conn: &rusqlite::Connection, sql: &str, first: i64, second: i64) -> Result<
    usize,
    rusqlite::Error,
> {
    conn.execute(sql, (first, second))
}

/// The text of an error of `rusqlite`, as its `Display` writes it. Trusted, not
/// proved; nothing is claimed of the text.
#[verifier::external_body]
fn describe(error: &rusqlite::Error) -> String {
    error.to_string()
}

/// The request that sets the flag of the entry with the identity `id` to
/// `flag_value`: the flag goes to the first parameter of the statement, the
/// identity to the second.
pub fn flag_update(id: i64, flag_value: i64) -> (request: FlagUpdate)
    ensures
        request.statement@ == SET_FLAG_STATEMENT@,
        request.flag == flag_value,
        request.id == id,
{
    FlagUpdate { statement: SET_FLAG_STATEMENT, flag: flag_value, id }
}

/// What a flag update returns, given the store's answer to the statement: the
/// number of rows it changed, or what it said went wrong.
///
/// An answer is a success whatever the number of rows: an identity that no
/// entry has is no error.
pub fn flag_update_outcome(id: i64, answer: Result<usize, String>) -> (outcome: Result<(), String>)
    ensures
        match answer {
            Ok(_) => outcome is Ok,
            Err(detail) => outcome matches Err(message) && message@ == flag_failure_text(
                id,
                detail@,
            ),
        },
{
    match answer {
        Ok(_) => Ok(()),
        Err(detail) => {
            let mut message: String = String::new();
            message.append("Failed to update flag for id ");
            push_signed_decimal(&mut message, id);
            message.append(": ");
            message.append(detail.as_str());
            Err(message)
        },
    }
}

/// Sets the flag of the entry with the identity `id` to `flag_value`, through
/// `conn`.
///
/// What is sent is the request of [`flag_update`], and what comes back is
/// turned into the outcome by [`flag_update_outcome`]. Whether the statement
/// goes through is the store's to say; a failure comes back as a message that
/// names `id`.
pub fn set_vocabulary_flag(conn: &rusqlite::Connection, id: i64, flag_value: i64) -> (outcome:
    Result<(), String>)
    ensures
        outcome matches Err(message) ==> exists|detail: Seq<char>|
            message@ == #[trigger] flag_failure_text(id, detail),
{
    let request = flag_update(id, flag_value);
    match execute_with_integers(conn, request.statement, request.flag, request.id) {
        Ok(rows) => flag_update_outcome(id, Ok(rows)),
        Err(error) => flag_update_outcome(id, Err(describe(&error))),
    }
}

} // verus!
