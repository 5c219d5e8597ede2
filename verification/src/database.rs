//! Model of the test database and of the two guarantees the helper gives
//! its callers: writes made inside a test-only transaction are discarded
//! when the connection is dropped, and the cleaning pass empties tables one
//! by one with no atomicity across tables.
//!
//! A table is identified by its index, and the model tracks one number per
//! table: how many rows it holds.

use vstd::prelude::*;

verus! {

/// The durable state of the test database: the row count of every table.
pub struct Database {
    rows: Vec<u64>,
}

impl View for Database {
    type V = Seq<u64>;

    closed spec fn view(&self) -> Seq<u64> {
        self.rows@
    }
}

/// A live connection: the rows it sees, and whether a test-only
/// transaction — one whose commit the driver suppresses — is open on it.
pub struct Connection {
    visible: Vec<u64>,
    test_transaction: bool,
}

impl View for Connection {
    type V = Seq<u64>;

    closed spec fn view(&self) -> Seq<u64> {
        self.visible@
    }
}

impl Connection {
    /// Whether a test-only transaction is open on this connection.
    pub closed spec fn in_test_transaction(&self) -> bool {
        self.test_transaction
    }

    /// Reports whether a test-only transaction is open on this connection.
    pub fn is_test_transaction(&self) -> (b: bool)
        ensures
            b == self.in_test_transaction(),
    {
        self.test_transaction
    }

    /// The row count of one table, as this connection sees it.
    pub fn visible_row_count(&self, table: usize) -> (n: u64)
        requires
            table < self@.len(),
        ensures
            n == self@[table as int],
    {
        self.visible[table]
    }
}

impl Database {
    /// A database whose tables hold the given row counts.
    pub fn with_rows(rows: Vec<u64>) -> (db: Database)
        ensures
            db@ == rows@,
    {
        Database { rows }
    }

    /// How many tables the database has.
    pub fn table_count(&self) -> (n: usize)
        ensures
            n == self@.len(),
    {
        self.rows.len()
    }

    /// The durable row count of one table.
    pub fn row_count(&self, table: usize) -> (n: u64)
        requires
            table < self@.len(),
        ensures
            n == self@[table as int],
    {
        self.rows[table]
    }

    /// Removes every row from one table.
    pub fn delete_all(&mut self, table: usize)
        requires
            table < old(self)@.len(),
        ensures
            final(self)@ == old(self)@.update(table as int, 0u64),
    {
        self.rows.set(table, 0);
    }
}

/// Opens a direct connection: it sees the durable rows, and its writes are
/// applied to the database as they are issued.
pub fn connection_without_transaction(db: &Database) -> (c: Connection)
    ensures
        c@ == db@,
        !c.in_test_transaction(),
{
    Connection { visible: db.rows.clone(), test_transaction: false }
}

/// Opens a connection and begins a test-only transaction on it: its writes
/// stay local to the connection and are discarded when it is dropped.
pub fn connection(db: &Database) -> (c: Connection)
    ensures
        c@ == db@,
        c.in_test_transaction(),
{
    Connection { visible: db.rows.clone(), test_transaction: true }
}

/// What one insert does: the connection always sees its own write; inside a
/// test transaction the durable rows stay as they are, outside they take
/// the write as well.
pub open spec fn spec_insert(
    db: Seq<u64>,
    visible: Seq<u64>,
    test_txn: bool,
    table: int,
    count: u64,
) -> (Seq<u64>, Seq<u64>) {
    let new_visible = visible.update(table, (visible[table] + count) as u64);
    if test_txn {
        (db, new_visible)
    } else {
        (db.update(table, (db[table] + count) as u64), new_visible)
    }
}

/// One INSERT of `count` rows into one table, issued through `conn`.
pub fn insert_rows(db: &mut Database, conn: &mut Connection, table: usize, count: u64)
    requires
        old(conn)@.len() == old(db)@.len(),
        table < old(db)@.len(),
        old(conn)@[table as int] + count <= u64::MAX,
        old(db)@[table as int] + count <= u64::MAX,
    ensures
        final(conn).in_test_transaction() == old(conn).in_test_transaction(),
        (final(db)@, final(conn)@) == spec_insert(
            old(db)@,
            old(conn)@,
            old(conn).in_test_transaction(),
            table as int,
            count,
        ),
{
    let seen = conn.visible[table] + count;
    conn.visible.set(table, seen);
    if !conn.test_transaction {
        let durable = db.rows[table] + count;
        db.rows.set(table, durable);
    }
}

/// What a whole sequence of writes does, each write naming a table and a
/// row count.
pub open spec fn run_inserts(
    db: Seq<u64>,
    visible: Seq<u64>,
    test_txn: bool,
    writes: Seq<(int, u64)>,
) -> (Seq<u64>, Seq<u64>)
    decreases writes.len(),
{
    if writes.len() == 0 {
        (db, visible)
    } else {
        let stepped = spec_insert(db, visible, test_txn, writes[0].0, writes[0].1);
        run_inserts(stepped.0, stepped.1, test_txn, writes.drop_first())
    }
}

/// Roll-back is automatic: no sequence of writes issued inside a test-only
/// transaction ever changes the durable rows, so nothing written through
/// such a connection is visible once the connection is dropped.
pub proof fn lemma_test_transaction_writes_never_persist(
    db: Seq<u64>,
    visible: Seq<u64>,
    writes: Seq<(int, u64)>,
)
    ensures
        run_inserts(db, visible, true, writes).0 == db,
    decreases writes.len(),
{
    if writes.len() > 0 {
        let stepped = spec_insert(db, visible, true, writes[0].0, writes[0].1);
        lemma_test_transaction_writes_never_persist(stepped.0, stepped.1, writes.drop_first());
    }
}

/// Dropping a connection never commits anything: an open test transaction
/// is rolled back, and a direct connection's writes were already applied
/// when they were issued — either way the durable rows do not change.
pub fn drop_connection(conn: Connection, db: &mut Database)
    ensures
        final(db)@ == old(db)@,
{
    let _ = conn;
}

/// The outcome of a cleaning pass.
#[derive(Clone, Copy, Debug, PartialEq, Eq)]
pub enum CleanOutcome {
    /// Every listed table was emptied.
    Cleaned,
    /// The delete of the table at this position in the list failed; the
    /// tables after it were not touched.
    FailedAt { position: usize },
}

/// The position of the first delete that fails, or the length of the list
/// when every delete succeeds.
pub open spec fn first_failure(results: Seq<bool>) -> int
    decreases results.len(),
{
    if results.len() == 0 {
        0
    } else if !results[0] {
        0
    } else {
        1 + first_failure(results.drop_first())
    }
}

/// The rows after the listed tables are emptied, in list order.
pub open spec fn zero_tables(rows: Seq<u64>, tables: Seq<usize>) -> Seq<u64>
    decreases tables.len(),
{
    if tables.len() == 0 {
        rows
    } else {
        zero_tables(rows.update(tables[0] as int, 0u64), tables.drop_first())
    }
}

/// Issues a delete-all against each listed table in order, stopping at the
/// first table whose delete the database refuses: the tables before it are
/// already empty, the tables after it are not touched. `results[i]` says
/// whether the database accepts the delete of `tables[i]` — such a refusal
/// comes from outside the model.
pub fn clean_db(db: &mut Database, tables: &Vec<usize>, results: &Vec<bool>) -> (r: CleanOutcome)
    requires
        tables@.len() == results@.len(),
        forall|i: int| 0 <= i < tables@.len() ==> #[trigger] tables@[i] < old(db)@.len(),
    ensures
        final(db)@ == zero_tables(old(db)@, tables@.take(first_failure(results@))),
        first_failure(results@) == results@.len() ==> r == CleanOutcome::Cleaned,
        first_failure(results@) < results@.len() ==> r == (CleanOutcome::FailedAt {
            position: first_failure(results@) as usize,
        }),
{
    let ghost rows0 = db@;
    let mut i: usize = 0;
    while i < tables.len()
        invariant
            rows0 == old(db)@,
            tables@.len() == results@.len(),
            0 <= i <= tables@.len(),
            forall|j: int| 0 <= j < tables@.len() ==> #[trigger] tables@[j] < rows0.len(),
            db@.len() == rows0.len(),
            forall|j: int| 0 <= j < i ==> #[trigger] results@[j],
            db@ == zero_tables(rows0, tables@.take(i as int)),
        decreases tables@.len() - i,
    {
        if !results[i] {
            proof {
                lemma_first_failure_at(results@, i as int);
            }
            return CleanOutcome::FailedAt { position: i };
        }
        db.delete_all(tables[i]);
        proof {
            lemma_zero_tables_push(rows0, tables@.take(i as int), tables@[i as int]);
            assert(tables@.take(i + 1) =~= tables@.take(i as int).push(tables@[i as int]));
        }
        i += 1;
    }
    proof {
        lemma_first_failure_none(results@);
        assert(tables@.take(tables@.len() as int) =~= tables@);
    }
    CleanOutcome::Cleaned
}

/// What the cleaning pass does to one table: a listed table ends empty, an
/// unlisted one keeps exactly its old rows.
pub proof fn lemma_zero_tables_point(rows: Seq<u64>, tables: Seq<usize>, p: usize)
    requires
        p < rows.len(),
        forall|i: int| 0 <= i < tables.len() ==> #[trigger] tables[i] < rows.len(),
    ensures
        zero_tables(rows, tables).len() == rows.len(),
        tables.contains(p) ==> zero_tables(rows, tables)[p as int] == 0,
        !tables.contains(p) ==> zero_tables(rows, tables)[p as int] == rows[p as int],
    decreases tables.len(),
{
    if tables.len() > 0 {
        let rows1 = rows.update(tables[0] as int, 0u64);
        let rest = tables.drop_first();
        assert forall|i: int| 0 <= i < rest.len() implies #[trigger] rest[i] < rows1.len() by {
            assert(rest[i] == tables[i + 1]);
        }
        lemma_zero_tables_point(rows1, rest, p);
        if tables.contains(p) {
            if tables[0] == p {
                if !rest.contains(p) {
                    assert(rows1[p as int] == 0);
                }
            } else {
                let w = choose|w: int| 0 <= w < tables.len() && tables[w] == p;
                assert(rest[w - 1] == p);
                assert(rest.contains(p));
            }
        } else {
            assert(tables[0] != p) by {
                assert(tables.contains(tables[0]));
            }
            assert(!rest.contains(p)) by {
                if rest.contains(p) {
                    let w = choose|w: int| 0 <= w < rest.len() && rest[w] == p;
                    assert(tables[w + 1] == p);
                }
            }
            assert(rows1[p as int] == rows[p as int]);
        }
    }
}

/// A cleaning pass in which every delete is accepted empties every listed
/// table and leaves every other table exactly as it was.
pub proof fn lemma_clean_db_empties_listed_tables(rows: Seq<u64>, tables: Seq<usize>)
    requires
        forall|i: int| 0 <= i < tables.len() ==> #[trigger] tables[i] < rows.len(),
    ensures
        zero_tables(rows, tables).len() == rows.len(),
        forall|i: int|
            0 <= i < tables.len() ==> zero_tables(rows, tables)[#[trigger] tables[i] as int] == 0,
        forall|j: usize|
            j < rows.len() && !tables.contains(j) ==> zero_tables(rows, tables)[j as int]
                == #[trigger] rows[j as int],
    decreases tables.len(),
{
    if tables.len() > 0 {
        lemma_zero_tables_point(rows, tables, tables[0]);
    } else {
        assert(zero_tables(rows, tables) == rows);
    }
    assert forall|i: int|
        0 <= i < tables.len() implies zero_tables(rows, tables)[#[trigger] tables[i] as int]
        == 0 by {
        assert(tables.contains(tables[i]));
        lemma_zero_tables_point(rows, tables, tables[i]);
    }
    assert forall|j: usize|
        j < rows.len() && !tables.contains(j) implies zero_tables(rows, tables)[j as int]
        == #[trigger] rows[j as int] by {
        lemma_zero_tables_point(rows, tables, j);
    }
}

/// No atomicity across tables: when the delete of the table at position `k`
/// is the first to fail, every table listed before position `k` is empty,
/// and a table that is not listed before position `k` still holds exactly
/// its old rows — cleaning one table never touches another.
pub proof fn lemma_clean_db_failure_is_not_atomic(
    rows: Seq<u64>,
    tables: Seq<usize>,
    results: Seq<bool>,
    k: int,
)
    requires
        tables.len() == results.len(),
        forall|i: int| 0 <= i < tables.len() ==> #[trigger] tables[i] < rows.len(),
        0 <= k < results.len(),
        forall|j: int| 0 <= j < k ==> #[trigger] results[j],
        !results[k],
    ensures
        first_failure(results) == k,
        forall|i: int|
            0 <= i < k ==> zero_tables(rows, tables.take(k))[#[trigger] tables[i] as int] == 0,
        forall|j: usize|
            j < rows.len() && !tables.take(k).contains(j) ==> zero_tables(
                rows,
                tables.take(k),
            )[j as int] == #[trigger] rows[j as int],
{
    lemma_first_failure_at(results, k);
    let prefix = tables.take(k);
    assert(forall|i: int| 0 <= i < prefix.len() ==> #[trigger] prefix[i] < rows.len());
    lemma_clean_db_empties_listed_tables(rows, prefix);
    assert forall|i: int|
        0 <= i < k implies zero_tables(rows, prefix)[#[trigger] tables[i] as int] == 0 by {
        assert(prefix[i] == tables[i]);
    }
}

proof fn lemma_first_failure_at(results: Seq<bool>, k: int)
    requires
        0 <= k < results.len(),
        forall|j: int| 0 <= j < k ==> #[trigger] results[j],
        !results[k],
    ensures
        first_failure(results) == k,
    decreases k,
{
    if k > 0 {
        let rest = results.drop_first();
        assert(results[0]);
        assert forall|j: int| 0 <= j < k - 1 implies #[trigger] rest[j] by {
            assert(rest[j] == results[j + 1]);
        }
        assert(rest[k - 1] == results[k]);
        lemma_first_failure_at(rest, k - 1);
    }
}

proof fn lemma_first_failure_none(results: Seq<bool>)
    requires
        forall|j: int| 0 <= j < results.len() ==> #[trigger] results[j],
    ensures
        first_failure(results) == results.len(),
    decreases results.len(),
{
    if results.len() > 0 {
        let rest = results.drop_first();
        assert forall|j: int| 0 <= j < rest.len() implies #[trigger] rest[j] by {
            assert(rest[j] == results[j + 1]);
        }
        lemma_first_failure_none(rest);
    }
}

proof fn lemma_zero_tables_push(rows: Seq<u64>, tables: Seq<usize>, t: usize)
    ensures
        zero_tables(rows, tables.push(t)) == zero_tables(rows, tables).update(t as int, 0u64),
    decreases tables.len(),
{
    if tables.len() == 0 {
        assert(tables.push(t).drop_first() =~= tables);
        assert(zero_tables(rows, tables.push(t)) == zero_tables(
            rows.update(t as int, 0u64),
            tables,
        ));
    } else {
        let rows1 = rows.update(tables[0] as int, 0u64);
        assert(tables.push(t).drop_first() =~= tables.drop_first().push(t));
        lemma_zero_tables_push(rows1, tables.drop_first(), t);
    }
}

} // verus!
