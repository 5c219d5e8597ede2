use dbtest_harness::database::{
    clean_db, connection, connection_without_transaction, drop_connection, insert_rows,
    CleanOutcome, Database,
};

#[test]
fn delete_all_empties_one_table_only() {
    let mut db = Database::with_rows(vec![3, 5, 7]);
    assert_eq!(db.table_count(), 3);
    db.delete_all(1);
    assert_eq!(db.row_count(0), 3);
    assert_eq!(db.row_count(1), 0);
    assert_eq!(db.row_count(2), 7);
}

#[test]
fn clean_db_empties_every_listed_table() {
    let mut db = Database::with_rows(vec![3, 5, 7]);
    let tables = vec![0, 1, 2];
    let results = vec![true, true, true];
    let outcome = clean_db(&mut db, &tables, &results);
    assert_eq!(outcome, CleanOutcome::Cleaned);
    assert_eq!(db.row_count(0), 0);
    assert_eq!(db.row_count(1), 0);
    assert_eq!(db.row_count(2), 0);
}

#[test]
fn clean_db_leaves_unlisted_tables_alone() {
    let mut db = Database::with_rows(vec![3, 5, 7]);
    let tables = vec![2];
    let results = vec![true];
    let outcome = clean_db(&mut db, &tables, &results);
    assert_eq!(outcome, CleanOutcome::Cleaned);
    assert_eq!(db.row_count(0), 3);
    assert_eq!(db.row_count(1), 5);
    assert_eq!(db.row_count(2), 0);
}

#[test]
fn clean_db_failure_is_not_atomic_across_tables() {
    // Cleaning [A, B, C] where B's delete fails: A is already empty, B and
    // C keep their rows, and the pass reports where it stopped.
    let mut db = Database::with_rows(vec![3, 5, 7]);
    let tables = vec![0, 1, 2];
    let results = vec![true, false, true];
    let outcome = clean_db(&mut db, &tables, &results);
    assert_eq!(outcome, CleanOutcome::FailedAt { position: 1 });
    assert_eq!(db.row_count(0), 0);
    assert_eq!(db.row_count(1), 5);
    assert_eq!(db.row_count(2), 7);
}

#[test]
fn clean_db_first_failure_stops_the_pass() {
    let mut db = Database::with_rows(vec![1, 2, 3, 4]);
    let tables = vec![3, 2, 1, 0];
    let results = vec![true, false, false, true];
    let outcome = clean_db(&mut db, &tables, &results);
    assert_eq!(outcome, CleanOutcome::FailedAt { position: 1 });
    assert_eq!(db.row_count(3), 0);
    assert_eq!(db.row_count(2), 3);
    assert_eq!(db.row_count(1), 2);
    assert_eq!(db.row_count(0), 1);
}

#[test]
fn clean_db_with_no_tables_does_nothing() {
    let mut db = Database::with_rows(vec![4]);
    let outcome = clean_db(&mut db, &vec![], &vec![]);
    assert_eq!(outcome, CleanOutcome::Cleaned);
    assert_eq!(db.row_count(0), 4);
}

#[test]
fn test_transaction_writes_roll_back_on_drop() {
    let mut db = Database::with_rows(vec![2]);
    let mut conn = connection(&db);
    assert!(conn.is_test_transaction());
    insert_rows(&mut db, &mut conn, 0, 5);
    // The connection sees its own write; the durable rows do not.
    assert_eq!(conn.visible_row_count(0), 7);
    assert_eq!(db.row_count(0), 2);
    drop_connection(conn, &mut db);
    assert_eq!(db.row_count(0), 2);
}

#[test]
fn direct_connection_writes_persist() {
    let mut db = Database::with_rows(vec![2]);
    let mut conn = connection_without_transaction(&db);
    assert!(!conn.is_test_transaction());
    insert_rows(&mut db, &mut conn, 0, 5);
    assert_eq!(conn.visible_row_count(0), 7);
    assert_eq!(db.row_count(0), 7);
    drop_connection(conn, &mut db);
    assert_eq!(db.row_count(0), 7);
}

#[test]
fn the_two_connections_are_independent() {
    let mut db = Database::with_rows(vec![10]);
    let direct = connection_without_transaction(&db);
    let mut transactional = connection(&db);
    insert_rows(&mut db, &mut transactional, 0, 4);
    // The direct connection opened first never sees the transactional write.
    assert_eq!(direct.visible_row_count(0), 10);
    assert_eq!(transactional.visible_row_count(0), 14);
    drop_connection(transactional, &mut db);
    // A connection opened after the drop sees the untouched durable rows.
    let late = connection_without_transaction(&db);
    assert_eq!(late.visible_row_count(0), 10);
}
