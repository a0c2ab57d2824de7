//! The post store: its records, the shape of a query and of its answer.

pub mod table;

use crate::clock::now_micros;
use crate::db::table::{
    ahead, begin_read, begin_write, commit, create, held, insert, lists, next_row, open_for_read,
    open_for_write, read, remove, scan, seen, under, Cursor, ReadTable, WriteTable,
};
use crate::query::{
    accepts, answer, descending, has_distinct_keys, keys_of, page_records_pass, query,
};
use redb::{CommitError, Database, DatabaseError, StorageError, TableError, TransactionError};
use vstd::prelude::*;

verus! {

/// One stored post.
pub struct Post {
    /// Creation time in microseconds since the Unix epoch; the key of the
    /// post.
    pub id: i64,
    /// The text of the post.
    pub message: String,
}

/// A post as a mathematical value: its key and its body.
pub struct Record {
    pub key: i64,
    pub body: Seq<char>,
}

impl View for Post {
    type V = Record;

    open spec fn view(&self) -> Record {
        Record { key: self.id, body: self.message@ }
    }
}

/// The records of a sequence of posts.
pub open spec fn records(rows: Seq<Post>) -> Seq<Record> {
    rows.map_values(|p: Post| p@)
}

/// The answer to a query: one page of posts, and the number of posts that
/// passed the filter before the page was cut.
pub struct Posts {
    pub posts: Vec<Post>,
    pub total: usize,
}

/// The answer to a query as a mathematical value.
pub struct QueryResult {
    pub total: nat,
    pub page: Seq<Record>,
}

impl View for Posts {
    type V = QueryResult;

    open spec fn view(&self) -> QueryResult {
        QueryResult { total: self.total as nat, page: records(self.posts@) }
    }
}

/// What a query orders by.
#[derive(Clone, Copy, Debug)]
pub enum Sort {
    /// The creation time, which is the key.
    Time,
}

impl Default for Sort {
    fn default() -> (r: Sort)
        ensures
            r == Sort::Time,
    {
        Sort::Time
    }
}

/// The direction of an order.
#[derive(Clone, Copy, Debug)]
pub enum Order {
    /// Largest first.
    Desc,
}

impl Default for Order {
    fn default() -> (r: Order)
        ensures
            r == Order::Desc,
    {
        Order::Desc
    }
}

/// A failure of the storage under the table. It says at which step the
/// database failed, and carries what the database reported.
#[derive(Debug)]
pub enum StorageFault {
    /// The database file could not be opened or made.
    Open(DatabaseError),
    /// A transaction could not be begun.
    Transaction(TransactionError),
    /// The table could not be opened.
    Table(TableError),
    /// A row could not be read or written.
    Storage(StorageError),
    /// A write transaction could not be committed.
    Commit(CommitError),
}

impl StorageFault {
    /// The faults that opening the store can end in: no row is touched
    /// there.
    pub open spec fn is_of_opening(&self) -> bool {
        self is Open || self is Transaction || self is Table || self is Commit
    }

    /// The faults that a write to the table can end in: the file is open by
    /// then.
    pub open spec fn is_of_writing(&self) -> bool {
        self is Transaction || self is Table || self is Storage || self is Commit
    }

    /// The faults that reading the table can end in: the file is open by
    /// then, and nothing is committed.
    pub open spec fn is_of_reading(&self) -> bool {
        self is Transaction || self is Table || self is Storage
    }
}

/// That `result` answers the query over the rows of some table, each key
/// once.
pub open spec fn answers(
    result: QueryResult,
    keyword: Option<Seq<char>>,
    sort_order: Option<(Sort, Order)>,
    start: Option<usize>,
    limit: Option<usize>,
) -> bool {
    exists|table: Seq<Record>|
        has_distinct_keys(table) && #[trigger] answer(table, keyword, sort_order, start, limit)
            == result
}

/// That every record of `page` passes the filter `keyword`.
pub open spec fn all_pass(page: Seq<Record>, keyword: Option<Seq<char>>) -> bool {
    forall|i: int| 0 <= i < page.len() ==> accepts(keyword, (#[trigger] page[i]).body)
}

/// The records of the rows of a table.
pub open spec fn records_of(rows: Seq<(i64, Seq<char>)>) -> Seq<Record> {
    rows.map_values(|row: (i64, Seq<char>)| Record { key: row.0, body: row.1 })
}

/// The record of a post that may be absent.
pub open spec fn record_of(found: Option<Post>) -> Option<Record> {
    match found {
        Some(post) => Some(post@),
        None => None,
    }
}

/// The record that a table holds under `key`, if any.
pub open spec fn record_under(table: Map<i64, Seq<char>>, key: i64) -> Option<Record> {
    match under(table, key) {
        Some(body) => Some(Record { key, body }),
        None => None,
    }
}

/// Over what one open table holds: after a text was put under a key, that
/// text is what the table holds under the key, whatever it held there
/// before, and every other key is as it was.
pub proof fn put_then_read(table: Map<i64, Seq<char>>, key: i64, body: Seq<char>, other: i64)
    requires
        other != key,
    ensures
        record_under(table.insert(key, body), key) == Some(Record { key, body }),
        under(table.insert(key, body), other) == under(table, other),
{
}

/// Over what one open table holds: after a key was taken out, the table
/// holds nothing under it, so that taking it out again finds nothing and
/// changes nothing; every other key is as it was.
pub proof fn removed_key_is_gone(table: Map<i64, Seq<char>>, id: i64, other: i64)
    requires
        other != id,
    ensures
        !table.remove(id).contains_key(id),
        record_under(table.remove(id), id) is None,
        table.remove(id).remove(id) == table.remove(id),
        !table.contains_key(id) ==> table.remove(id) == table,
        under(table.remove(id), other) == under(table, other),
{
    assert(table.remove(id).remove(id) =~= table.remove(id));
    if !table.contains_key(id) {
        assert(table.remove(id) =~= table);
    }
}

/// Stores `message` under `key` in the open table, and returns the key. The
/// table then holds the message under the key, in place of any text that
/// was there, and every other row as before.
pub fn put_into(table: &mut WriteTable<'_>, key: i64, message: String) -> (r: Result<
    i64,
    StorageFault,
>)
    ensures
        r matches Ok(stored) ==> stored == key && held(*final(table)) == held(
            *old(table),
        ).insert(key, message@),
        r matches Err(fault) ==> fault is Storage,
{
    match insert(table, key, message) {
        Ok(()) => Ok(key),
        Err(e) => Err(StorageFault::Storage(e)),
    }
}

/// Takes the post `id` out of the open table. Returns whether the table
/// held such a post; the table then holds none under `id`, and every other
/// row as before.
pub fn remove_from(table: &mut WriteTable<'_>, id: i64) -> (r: Result<bool, StorageFault>)
    ensures
        r matches Ok(found) ==> found == held(*old(table)).contains_key(id) && held(
            *final(table),
        ) == held(*old(table)).remove(id),
        r matches Err(fault) ==> fault is Storage,
{
    match remove(table, id) {
        Ok(old) => Ok(old.is_some()),
        Err(e) => Err(StorageFault::Storage(e)),
    }
}

/// The post that the table holds under `id`, or nothing where it holds
/// none.
pub fn post_in(table: &ReadTable, id: i64) -> (r: Result<Option<Post>, StorageFault>)
    ensures
        r matches Ok(found) ==> record_of(found) == record_under(seen(*table), id),
        r matches Err(fault) ==> fault is Storage,
{
    match read(table, id) {
        Ok(Some(message)) => Ok(Some(Post { id, message })),
        Ok(None) => Ok(None),
        Err(e) => Err(StorageFault::Storage(e)),
    }
}

/// Takes one row that a walk handed out: a row that was read is added to
/// `rows`, and a row that failed to read is a fault, with `rows` as they
/// were.
pub fn keep(rows: &mut Vec<Post>, handed: Result<(i64, String), StorageError>) -> (r: Result<
    (),
    StorageFault,
>)
    ensures
        match handed {
            Ok(row) => r is Ok && records(final(rows)@) == records(old(rows)@).push(
                (Record { key: row.0, body: row.1@ }),
            ),
            Err(e) => r == Err::<(), StorageFault>(StorageFault::Storage(e)) && final(rows)@
                == old(rows)@,
        },
{
    match handed {
        Ok((id, message)) => {
            rows.push(Post { id, message });
            assert(records(rows@) =~= records(old(rows)@).push(rows@.last()@));
            Ok(())
        },
        Err(e) => Err(StorageFault::Storage(e)),
    }
}

/// Gathers all rows that are ahead of a walk, in the order of the walk. A
/// row that fails to read ends the walk with its fault: no answer leaves a
/// row out.
pub fn gather(cursor: &mut Cursor<'_>) -> (r: Result<Vec<Post>, StorageFault>)
    ensures
        r matches Ok(rows) ==> records(rows@) == records_of(ahead(*old(cursor))),
        r matches Err(fault) ==> fault is Storage,
{
    let mut rows: Vec<Post> = Vec::new();
    let ghost all = ahead(*cursor);
    assert(records_of(all) =~= records(rows@) + records_of(all));
    loop
        invariant
            all == ahead(*old(cursor)),
            records_of(all) == records(rows@) + records_of(ahead(*cursor)),
        decreases ahead(*cursor).len(),
    {
        let ghost before = ahead(*cursor);
        match next_row(cursor) {
            Some(handed) => {
                match keep(&mut rows, handed) {
                    Ok(()) => {
                        assert(records_of(before) =~= seq![records_of(before).first()]
                            + records_of(before.drop_first()));
                    },
                    Err(fault) => {
                        return Err(fault);
                    },
                }
            },
            None => {
                assert(records(rows@) =~= records(rows@) + records_of(before));
                return Ok(rows);
            },
        }
    }
}

/// All rows of the table, in the order in which the database walks them:
/// each key of the table once, with the text that the table holds under it.
pub fn rows_in(table: &ReadTable) -> (r: Result<Vec<Post>, StorageFault>)
    ensures
        r matches Ok(rows) ==> exists|listed: Seq<(i64, Seq<char>)>| #[trigger]
            lists(listed, seen(*table)) && records(rows@) == records_of(listed),
        r matches Ok(rows) ==> has_distinct_keys(records(rows@)),
        r matches Err(fault) ==> fault is Storage,
{
    let mut cursor = match scan(table) {
        Ok(cursor) => cursor,
        Err(e) => {
            return Err(StorageFault::Storage(e));
        },
    };
    let ghost listed = ahead(cursor);
    match gather(&mut cursor) {
        Ok(rows) => {
            proof {
                assert(lists(listed, seen(*table)));
                assert forall|i: int, j: int| 0 <= i < j < records(rows@).len() implies records(
                    rows@,
                )[i].key != records(rows@)[j].key by {
                    assert(records_of(listed)[i].key == listed[i].0);
                    assert(records_of(listed)[j].key == listed[j].0);
                }
            }
            Ok(rows)
        },
        Err(fault) => Err(fault),
    }
}

/// Answers a query over the rows of the table: the exact answer of
/// [`query`] over a listing of what the table holds.
pub fn posts_in(
    table: &ReadTable,
    keyword: Option<&str>,
    sort_order: Option<(Sort, Order)>,
    start: Option<usize>,
    limit: Option<usize>,
) -> (r: Result<Posts, StorageFault>)
    ensures
        r matches Ok(posts) ==> exists|listed: Seq<(i64, Seq<char>)>| #[trigger]
            lists(listed, seen(*table)) && posts@ == answer(
                records_of(listed),
                keyword.deep_view(),
                sort_order,
                start,
                limit,
            ),
        r matches Ok(posts) ==> answers(posts@, keyword.deep_view(), sort_order, start, limit),
        r matches Ok(posts) ==> posts.posts.len() <= posts.total,
        r matches Ok(posts) ==> (limit matches Some(l) ==> posts.posts.len() <= l),
        r matches Ok(posts) ==> (start is None && limit is None ==> posts.posts.len()
            == posts.total),
        r matches Ok(posts) ==> (sort_order is Some ==> descending(keys_of(posts@.page))),
        r matches Ok(posts) ==> all_pass(posts@.page, keyword.deep_view()),
        r matches Err(fault) ==> fault is Storage,
{
    let rows = match rows_in(table) {
        Ok(rows) => rows,
        Err(fault) => {
            return Err(fault);
        },
    };
    let posts = query(&rows, keyword, sort_order, start, limit);
    proof {
        let found = records(rows@);
        assert forall|i: int| 0 <= i < posts@.page.len() implies accepts(
            keyword.deep_view(),
            (#[trigger] posts@.page[i]).body,
        ) by {
            page_records_pass(found, keyword.deep_view(), sort_order, start, limit, i);
        }
    }
    Ok(posts)
}

/// The post store: one table in a database file, from the creation time of a
/// post to its text.
pub struct Db(Database);

impl Db {
    /// Opens the store in the file `path`, and makes database and table
    /// where there are none.
    pub fn init(path: &str) -> (r: Result<Db, StorageFault>)
        ensures
            r matches Err(fault) ==> fault.is_of_opening(),
    {
        let db = match create(path) {
            Ok(db) => db,
            Err(e) => {
                return Err(StorageFault::Open(e));
            },
        };
        let tx = match begin_write(&db) {
            Ok(tx) => tx,
            Err(e) => {
                return Err(StorageFault::Transaction(e));
            },
        };
        match open_for_write(&tx) {
            Ok(_) => {},
            Err(e) => {
                return Err(StorageFault::Table(e));
            },
        }
        match commit(tx) {
            Ok(()) => Ok(Db(db)),
            Err(e) => Err(StorageFault::Commit(e)),
        }
    }

    /// Removes the post `id` in one transaction. Returns whether there was
    /// such a post; that there was none is no failure.
    pub fn delete(&self, id: i64) -> (r: Result<bool, StorageFault>)
        ensures
            r matches Err(fault) ==> fault.is_of_writing(),
    {
        let tx = match begin_write(&self.0) {
            Ok(tx) => tx,
            Err(e) => {
                return Err(StorageFault::Transaction(e));
            },
        };
        let is_deleted: bool = {
            let mut t = match open_for_write(&tx) {
                Ok(t) => t,
                Err(e) => {
                    return Err(StorageFault::Table(e));
                },
            };
            match remove_from(&mut t, id) {
                Ok(found) => found,
                Err(fault) => {
                    return Err(fault);
                },
            }
        };
        match commit(tx) {
            Ok(()) => Ok(is_deleted),
            Err(e) => Err(StorageFault::Commit(e)),
        }
    }

    /// Stores `message` under the time of the system clock, and returns that
    /// key. A post that was stored in the same microsecond is overwritten.
    pub fn submit(&self, message: String) -> (r: Result<i64, StorageFault>)
        ensures
            r matches Err(fault) ==> fault.is_of_writing(),
    {
        let key: i64 = now_micros();
        self.put(key, message)
    }

    /// Stores `message` under `key` in one transaction, and returns the key.
    /// A post that the table held under `key` is overwritten.
    pub fn put(&self, key: i64, message: String) -> (r: Result<i64, StorageFault>)
        ensures
            r matches Ok(stored) ==> stored == key,
            r matches Err(fault) ==> fault.is_of_writing(),
    {
        let tx = match begin_write(&self.0) {
            Ok(tx) => tx,
            Err(e) => {
                return Err(StorageFault::Transaction(e));
            },
        };
        {
            let mut t = match open_for_write(&tx) {
                Ok(t) => t,
                Err(e) => {
                    return Err(StorageFault::Table(e));
                },
            };
            match put_into(&mut t, key, message) {
                Ok(_) => {},
                Err(fault) => {
                    return Err(fault);
                },
            }
        }
        match commit(tx) {
            Ok(()) => Ok(key),
            Err(e) => Err(StorageFault::Commit(e)),
        }
    }

    /// The post `id`, or nothing where the table holds none under that key.
    pub fn post(&self, id: i64) -> (r: Result<Option<Post>, StorageFault>)
        ensures
            r matches Ok(Some(post)) ==> post.id == id,
            r matches Err(fault) ==> fault.is_of_reading(),
    {
        let tx = match begin_read(&self.0) {
            Ok(tx) => tx,
            Err(e) => {
                return Err(StorageFault::Transaction(e));
            },
        };
        let t = match open_for_read(&tx) {
            Ok(t) => t,
            Err(e) => {
                return Err(StorageFault::Table(e));
            },
        };
        post_in(&t, id)
    }

    /// All rows of the table, as one read transaction sees them, in the
    /// order in which the database walks them.
    pub fn rows(&self) -> (r: Result<Vec<Post>, StorageFault>)
        ensures
            r matches Ok(rows) ==> has_distinct_keys(records(rows@)),
            r matches Err(fault) ==> fault.is_of_reading(),
    {
        let tx = match begin_read(&self.0) {
            Ok(tx) => tx,
            Err(e) => {
                return Err(StorageFault::Transaction(e));
            },
        };
        let t = match open_for_read(&tx) {
            Ok(t) => t,
            Err(e) => {
                return Err(StorageFault::Table(e));
            },
        };
        rows_in(&t)
    }

    /// Answers a query over the table as one read transaction sees it: see
    /// [`posts_in`] and [`query`].
    pub fn posts(
        &self,
        keyword: Option<&str>,
        sort_order: Option<(Sort, Order)>,
        start: Option<usize>,
        limit: Option<usize>,
    ) -> (r: Result<Posts, StorageFault>)
        ensures
            r matches Ok(posts) ==> answers(
                posts@,
                keyword.deep_view(),
                sort_order,
                start,
                limit,
            ),
            r matches Ok(posts) ==> posts.posts.len() <= posts.total,
            r matches Ok(posts) ==> (limit matches Some(l) ==> posts.posts.len() <= l),
            r matches Ok(posts) ==> (start is None && limit is None ==> posts.posts.len()
                == posts.total),
            r matches Ok(posts) ==> (sort_order is Some ==> descending(keys_of(posts@.page))),
            r matches Ok(posts) ==> all_pass(posts@.page, keyword.deep_view()),
            r matches Err(fault) ==> fault.is_of_reading(),
    {
        let tx = match begin_read(&self.0) {
            Ok(tx) => tx,
            Err(e) => {
                return Err(StorageFault::Transaction(e));
            },
        };
        let t = match open_for_read(&tx) {
            Ok(t) => t,
            Err(e) => {
                return Err(StorageFault::Table(e));
            },
        };
        posts_in(&t, keyword, sort_order, start, limit)
    }
}

} // verus!
