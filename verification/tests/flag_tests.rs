use rusqlite::Connection;
use vocab_store::flag::{
    flag_update, flag_update_outcome, set_vocabulary_flag, FlagUpdate, SET_FLAG_STATEMENT,
};

type Row = (i64, Option<String>, i64, f64, i64, Option<i64>);

fn store() -> Connection {
    let conn = Connection::open_in_memory().unwrap();
    conn.execute_batch(
        "CREATE TABLE vocabulary (
            vocab_id INTEGER PRIMARY KEY AUTOINCREMENT,
            english TEXT, furigana TEXT, japanese TEXT,
            times_seen INTEGER NOT NULL DEFAULT 0,
            recently_missed_percent REAL NOT NULL DEFAULT 0.0,
            flag INTEGER NOT NULL DEFAULT 0,
            public_notes TEXT, personal_notes TEXT, book TEXT,
            chapter INTEGER, section INTEGER, word_category TEXT
        );
        INSERT INTO vocabulary (english, times_seen, recently_missed_percent, flag, chapter)
            VALUES ('one', 1, 0.5, 0, 1), ('two', 2, 0.25, 5, NULL), ('three', 3, 0.0, -1, 3);",
    )
    .unwrap();
    conn
}

fn rows(conn: &Connection) -> Vec<Row> {
    let mut stmt = conn
        .prepare(
            "SELECT vocab_id, english, times_seen, recently_missed_percent, flag, chapter
             FROM vocabulary ORDER BY vocab_id",
        )
        .unwrap();
    let found = stmt
        .query_map([], |row| {
            Ok((row.get(0)?, row.get(1)?, row.get(2)?, row.get(3)?, row.get(4)?, row.get(5)?))
        })
        .unwrap();
    found.map(|row| row.unwrap()).collect()
}

#[test]
fn setting_a_flag_changes_that_flag_and_nothing_else() {
    let conn = store();
    let before = rows(&conn);
    assert_eq!(set_vocabulary_flag(&conn, 2, 9), Ok(()));
    let after = rows(&conn);
    assert_eq!(after.len(), 3);
    assert_eq!(after[0], before[0]);
    assert_eq!(after[2], before[2]);
    assert_eq!(after[1], (2, Some("two".to_string()), 2, 0.25, 9, None));
}

#[test]
fn the_flag_goes_to_the_flag_and_the_identity_to_the_identity() {
    let conn = store();
    assert_eq!(set_vocabulary_flag(&conn, 3, 1), Ok(()));
    let after = rows(&conn);
    assert_eq!(after[0].4, 0);
    assert_eq!(after[1].4, 5);
    assert_eq!(after[2].4, 1);
}

#[test]
fn a_negative_flag_is_stored() {
    let conn = store();
    assert_eq!(set_vocabulary_flag(&conn, 1, i64::MIN), Ok(()));
    assert_eq!(rows(&conn)[0].4, i64::MIN);
}

#[test]
fn setting_a_flag_for_no_entry_succeeds_and_changes_nothing() {
    let conn = store();
    let before = rows(&conn);
    assert_eq!(set_vocabulary_flag(&conn, 999, 7), Ok(()));
    assert_eq!(set_vocabulary_flag(&conn, -1, 7), Ok(()));
    assert_eq!(rows(&conn), before);
}

#[test]
fn a_store_without_the_table_fails_with_a_message_that_names_the_entry() {
    let conn = Connection::open_in_memory().unwrap();
    let outcome = set_vocabulary_flag(&conn, 41, 1);
    assert_eq!(
        outcome,
        Err("Failed to update flag for id 41: no such table: vocabulary".to_string())
    );
}

#[test]
fn the_statement_sets_the_flag_by_identity() {
    assert_eq!(SET_FLAG_STATEMENT, "UPDATE vocabulary SET flag = ?1 WHERE vocab_id = ?2");
}

#[test]
fn any_number_of_changed_rows_is_a_success() {
    assert_eq!(flag_update_outcome(1, Ok(1)), Ok(()));
    assert_eq!(flag_update_outcome(1, Ok(0)), Ok(()));
    assert_eq!(flag_update_outcome(1, Ok(2)), Ok(()));
}

#[test]
fn a_failed_update_names_the_entry_and_the_cause() {
    assert_eq!(
        flag_update_outcome(17, Err("database is locked".to_string())),
        Err("Failed to update flag for id 17: database is locked".to_string())
    );
    assert_eq!(
        flag_update_outcome(-4, Err("x".to_string())),
        Err("Failed to update flag for id -4: x".to_string())
    );
    assert_eq!(
        flag_update_outcome(i64::MIN, Err(String::new())),
        Err("Failed to update flag for id -9223372036854775808: ".to_string())
    );
}

#[test]
fn the_request_binds_the_flag_first_and_the_identity_second() {
    assert_eq!(
        flag_update(41, 7),
        FlagUpdate {
            statement: "UPDATE vocabulary SET flag = ?1 WHERE vocab_id = ?2",
            flag: 7,
            id: 41,
        }
    );
    let request = flag_update(-3, i64::MAX);
    assert_eq!(request.statement, SET_FLAG_STATEMENT);
    assert_eq!(request.flag, i64::MAX);
    assert_eq!(request.id, -3);
}

#[test]
fn the_request_sent_as_it_stands_sets_the_flag() {
    let conn = store();
    let request = flag_update(2, 9);
    let changed = conn.execute(request.statement, (request.flag, request.id)).unwrap();
    assert_eq!(changed, 1);
    let after = rows(&conn);
    assert_eq!(after[0].4, 0);
    assert_eq!(after[1].4, 9);
    assert_eq!(after[2].4, -1);
}
