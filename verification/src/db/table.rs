//! The table on disk: the calls into `redb` that the store is made of.
//!
//! Nothing here is proved. Each function makes one call and hands its result
//! on. What an open table holds has a name, and the contracts say over that
//! name what `redb` documents of each call that returns without a failure.
//! What a table holds when it is opened depends on the file, and no contract
//! speaks of that.

use redb::{
    CommitError, Database, DatabaseError, Range, ReadOnlyTable, ReadTransaction,
    ReadableDatabase, ReadableTable, StorageError, Table, TableDefinition, TableError,
    TransactionError, WriteTransaction,
};
use vstd::prelude::*;

verus! {

/// The name of the table of posts.
pub const TABLE: &'static str = "post";

/// `redb::Database`: an open database file.
#[verifier::external_type_specification]
#[verifier::external_body]
pub struct ExDatabase(Database);

/// `redb::WriteTransaction`.
#[verifier::external_type_specification]
#[verifier::external_body]
pub struct ExWriteTransaction(WriteTransaction);

/// `redb::ReadTransaction`.
#[verifier::external_type_specification]
#[verifier::external_body]
pub struct ExReadTransaction(ReadTransaction);

/// `redb::DatabaseError`: why a database could not be opened.
#[verifier::external_type_specification]
#[verifier::external_body]
pub struct ExDatabaseError(DatabaseError);

/// `redb::TransactionError`: why a transaction could not be begun.
#[verifier::external_type_specification]
#[verifier::external_body]
pub struct ExTransactionError(TransactionError);

/// `redb::TableError`: why a table could not be opened.
#[verifier::external_type_specification]
#[verifier::external_body]
pub struct ExTableError(TableError);

/// `redb::StorageError`: why a row could not be read or written.
#[verifier::external_type_specification]
#[verifier::external_body]
pub struct ExStorageError(StorageError);

/// `redb::CommitError`: why a transaction could not be committed.
#[verifier::external_type_specification]
#[verifier::external_body]
pub struct ExCommitError(CommitError);

/// The table of posts inside a write transaction (`redb::Table`, which is
/// generic over traits of `redb` and so cannot be declared as it is).
#[verifier::external_body]
pub struct WriteTable<'txn> {
    inner: Table<'txn, i64, String>,
}

/// The table of posts as a read transaction sees it (`redb::ReadOnlyTable`).
#[verifier::external_body]
pub struct ReadTable {
    inner: ReadOnlyTable<i64, String>,
}

/// A walk over the rows of the table (`redb::Range`).
#[verifier::external_body]
pub struct Cursor<'a> {
    inner: Range<'a, i64, String>,
}

/// What the table holds inside its write transaction: the text under each
/// key.
pub uninterp spec fn held(table: WriteTable<'_>) -> Map<i64, Seq<char>>;

/// What the table holds as its read transaction sees it: the text under
/// each key.
pub uninterp spec fn seen(table: ReadTable) -> Map<i64, Seq<char>>;

/// The rows of the table that a walk has not passed yet, in the order of
/// the walk; none once a row has failed to read.
pub uninterp spec fn ahead(cursor: Cursor<'_>) -> Seq<(i64, Seq<char>)>;

/// What a table holds under `key`, if anything.
pub open spec fn under(table: Map<i64, Seq<char>>, key: i64) -> Option<Seq<char>> {
    if table.contains_key(key) {
        Some(table[key])
    } else {
        None
    }
}

/// That `rows` are the rows of `table`: each key of the table once, with the
/// text that the table holds under it, and nothing else.
pub open spec fn lists(rows: Seq<(i64, Seq<char>)>, table: Map<i64, Seq<char>>) -> bool {
    &&& forall|i: int, j: int| 0 <= i < j < rows.len() ==> rows[i].0 != rows[j].0
    &&& forall|i: int| 0 <= i < rows.len() ==> #[trigger] under(table, rows[i].0) == Some(rows[i].1)
    &&& forall|key: i64| #[trigger] table.contains_key(key) ==> has_row(rows, key)
}

/// That one of `rows` has the key `key`.
pub open spec fn has_row(rows: Seq<(i64, Seq<char>)>, key: i64) -> bool {
    exists|i: int| 0 <= i < rows.len() && #[trigger] rows[i].0 == key
}

/// Calls `Database::create`: opens the database file at `path`, and makes it
/// where there is none.
#[verifier::external_body]
pub(crate) fn create(path: &str) -> (r: Result<Database, DatabaseError>) {
    Database::create(path)
}

/// Calls `Database::begin_write`. It waits while another write transaction
/// of the same database is open.
#[verifier::external_body]
pub(crate) fn begin_write(db: &Database) -> (r: Result<WriteTransaction, TransactionError>) {
    db.begin_write()
}

/// Calls `WriteTransaction::open_table` for the table of posts, which makes
/// the table where there is none.
#[verifier::external_body]
pub(crate) fn open_for_write<'txn>(tx: &'txn WriteTransaction) -> (r: Result<
    WriteTable<'txn>,
    TableError,
>) {
    tx.open_table(TableDefinition::new(TABLE)).map(|inner| WriteTable { inner })
}

/// Calls `Table::insert`, and drops the value that it hands back. Where the
/// call returns without a failure, the table holds the value under the key,
/// in place of any that was there, and every other key as before.
#[verifier::external_body]
pub(crate) fn insert(table: &mut WriteTable<'_>, key: i64, value: String) -> (r: Result<
    (),
    StorageError,
>)
    ensures
        r is Ok ==> held(*final(table)) == held(*old(table)).insert(key, value@),
{
    table.inner.insert(key, value).map(|_| ())
}

/// Calls `Table::remove`. Where the call returns without a failure, it
/// hands back the value that the table held under the key, if any, and the
/// table holds the key no more and every other key as before.
#[verifier::external_body]
pub(crate) fn remove(table: &mut WriteTable<'_>, key: i64) -> (r: Result<
    Option<String>,
    StorageError,
>)
    ensures
        r matches Ok(got) ==> got.deep_view() == under(held(*old(table)), key),
        r is Ok ==> held(*final(table)) == held(*old(table)).remove(key),
{
    table.inner.remove(key).map(|old| old.map(|guard| guard.value()))
}

/// Calls `WriteTransaction::commit`.
#[verifier::external_body]
pub(crate) fn commit(tx: WriteTransaction) -> (r: Result<(), CommitError>) {
    tx.commit()
}

/// Calls `ReadableDatabase::begin_read` on the database.
#[verifier::external_body]
pub(crate) fn begin_read(db: &Database) -> (r: Result<ReadTransaction, TransactionError>) {
    db.begin_read()
}

/// Calls `ReadTransaction::open_table` for the table of posts, which fails
/// where there is no such table.
#[verifier::external_body]
pub(crate) fn open_for_read(tx: &ReadTransaction) -> (r: Result<ReadTable, TableError>) {
    tx.open_table(TableDefinition::new(TABLE)).map(|inner| ReadTable { inner })
}

/// Calls `ReadOnlyTable::get`. Where the call returns without a failure, it
/// hands back the value that the table holds under the key, if any.
#[verifier::external_body]
pub(crate) fn read(table: &ReadTable, key: i64) -> (r: Result<Option<String>, StorageError>)
    ensures
        r matches Ok(got) ==> got.deep_view() == under(seen(*table), key),
{
    table.inner.get(key).map(|found| found.map(|guard| guard.value()))
}

/// Calls `ReadableTable::iter`: a walk over all rows of the table. Where
/// the call returns without a failure, the rows ahead of the walk are the
/// rows of the table, each key once; of their order nothing is said.
#[verifier::external_body]
pub(crate) fn scan(table: &ReadTable) -> (r: Result<Cursor<'_>, StorageError>)
    ensures
        r matches Ok(cursor) ==> lists(ahead(cursor), seen(*table)),
{
    table.inner.iter().map(|inner| Cursor { inner })
}

/// Calls `Iterator::next` on the walk, and hands on key and value of the
/// row. A row that comes is the first of the rows ahead, and the rest stay
/// ahead; where nothing comes, no row was ahead. Of a row that fails to read
/// nothing is said.
#[verifier::external_body]
pub(crate) fn next_row(cursor: &mut Cursor<'_>) -> (r: Option<
    Result<(i64, String), StorageError>,
>)
    ensures
        r matches Some(Ok(row)) ==> ahead(*old(cursor)).len() > 0 && ahead(*old(cursor)).first()
            == (row.0, row.1@) && ahead(*final(cursor)) == ahead(*old(cursor)).drop_first(),
        r is None ==> ahead(*old(cursor)).len() == 0 && ahead(*final(cursor)).len() == 0,
{
    cursor.inner.next().map(|row| row.map(|(key, value)| (key.value(), value.value())))
}

} // verus!
