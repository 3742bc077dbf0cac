//! The core of a vocabulary store: entries of a language-learning list kept in
//! one table of an SQLite database.
//!
//! Three operations work on the table.
//!
//! * Listing reads every entry. The caller runs the statement and reads the
//!   rows; [`listing::collect_entries`] makes the listing of them, which one
//!   unreadable row fails.
//! * Import takes tab-separated text, a header line and then one entry for
//!   each line. [`import::import_with`] reads the text and hands the entries
//!   one at a time to a function of the caller, which inserts each and says
//!   how the store answered; at the end stands a [`report::ImportReport`] and
//!   its status line. [`import::ImportSession`] offers the same step by step.
//! * Setting a flag changes the flag of one entry.
//!   [`flag::set_vocabulary_flag`] runs the statement itself.
//!
//! The ratio of recent misses is a floating-point number, and this library
//! holds none: a stored entry carries the ratio's bit pattern, a new entry its
//! literal. That is why the statements with the ratio among their columns are
//! the caller's to run, while the flag update, which carries integers only, is
//! run here.
//!
//! [`text`], [`number`] and [`ratio`] hold what the reading of a line rests
//! on: lines, fields, blank lines, integers in base ten, and the shape of a
//! floating-point literal.

pub mod entry;
pub mod flag;
pub mod import;
pub mod listing;
pub mod number;
pub mod ratio;
pub mod report;
pub mod text;
