//! The query engine: keyword filter, ordering by key, and paging, over the
//! rows of the post table.

use crate::db::{records, Order, Post, Posts, QueryResult, Record, Sort};
use crate::text::{chars_of, contains, lowercase, occurs_in, to_lowercase};
use vstd::prelude::*;
use vstd::relations::total_ordering;
use vstd::seq_lib::{
    lemma_multiset_commutative, lemma_sorted_unique, to_multiset_build, to_multiset_contains,
    to_multiset_len,
};

verus! {

broadcast use vstd::string::group_string_axioms;

/// The characters that count as filler in a keyword.
pub open spec fn is_separator(c: char) -> bool {
    ||| c == '_'
    ||| c == '-'
    ||| c == ':'
    ||| c == ';'
    ||| c == ','
    ||| c == '('
    ||| c == ')'
    ||| c == '['
    ||| c == ']'
    ||| c == '/'
    ||| c == '!'
    ||| c == '?'
    ||| c == ' '
}

/// A keyword made of separators alone (the empty one too) filters nothing.
pub open spec fn is_blank(keyword: Seq<char>) -> bool {
    forall|i: int| 0 <= i < keyword.len() ==> is_separator(#[trigger] keyword[i])
}

/// What is searched for: nothing where the keyword is absent or blank, else
/// the keyword in lower case.
pub open spec fn needle_of(keyword: Option<Seq<char>>) -> Option<Seq<char>> {
    match keyword {
        Some(k) => if is_blank(k) {
            None
        } else {
            Some(lowercase(k))
        },
        None => None,
    }
}

/// Whether a body passes the search for `needle`: every body does where
/// nothing is searched for, else those whose lower-case form holds the needle.
pub open spec fn admits(needle: Option<Seq<char>>, body: Seq<char>) -> bool {
    match needle {
        Some(n) => occurs_in(n, lowercase(body)),
        None => true,
    }
}

/// Whether a post with the text `body` passes the filter `keyword`.
pub open spec fn accepts(keyword: Option<Seq<char>>, body: Seq<char>) -> bool {
    admits(needle_of(keyword), body)
}

/// The filter of a query as a predicate on records.
pub open spec fn passing(keyword: Option<Seq<char>>) -> spec_fn(Record) -> bool {
    |r: Record| accepts(keyword, r.body)
}

/// The records of `table` that pass the filter, in table order.
pub open spec fn matching(table: Seq<Record>, keyword: Option<Seq<char>>) -> Seq<Record> {
    table.filter(passing(keyword))
}

/// The keys of a sequence of records.
pub open spec fn keys_of(rows: Seq<Record>) -> Seq<i64> {
    rows.map_values(|r: Record| r.key)
}

/// The order "newest first" on keys: `a` may stand before `b`.
pub open spec fn newest_first() -> spec_fn(i64, i64) -> bool {
    |a: i64, b: i64| a >= b
}

/// No key is followed, anywhere later, by a larger one.
pub open spec fn descending(keys: Seq<i64>) -> bool {
    forall|i: int, j: int| 0 <= i < j < keys.len() ==> keys[i] >= keys[j]
}

/// `keys` in the order that `sort_order` asks for: as they are where it asks
/// for none, else rearranged newest first. Equal keys cannot be told apart,
/// so there is exactly one such arrangement.
pub open spec fn ordered(keys: Seq<i64>, sort_order: Option<(Sort, Order)>) -> Seq<i64> {
    match sort_order {
        Some((Sort::Time, Order::Desc)) => keys.sort_by(newest_first()),
        None => keys,
    }
}

/// The keys that a query selects, in display order.
pub open spec fn selected(
    table: Seq<Record>,
    keyword: Option<Seq<char>>,
    sort_order: Option<(Sort, Order)>,
) -> Seq<i64> {
    ordered(keys_of(matching(table, keyword)), sort_order)
}

/// The record that the table holds under `key`: the first row with that key
/// (the rows of a table have distinct keys).
pub open spec fn get(table: Seq<Record>, key: i64) -> Option<Record>
    decreases table.len(),
{
    if table.len() == 0 {
        None
    } else if table.first().key == key {
        Some(table.first())
    } else {
        get(table.drop_first(), key)
    }
}

/// The records that the table holds under `keys`, key by key.
pub open spec fn resolved(table: Seq<Record>, keys: Seq<i64>) -> Seq<Record> {
    keys.map_values(|k: i64| get(table, k).unwrap())
}

/// Where a page of `total` keys begins: at the offset, or at the end where
/// the offset lies beyond it. An absent offset is 0.
pub open spec fn page_start(total: nat, start: Option<usize>) -> nat {
    match start {
        Some(s) => if s as nat <= total {
            s as nat
        } else {
            total
        },
        None => 0,
    }
}

/// Where that page ends: `limit` keys after its start, or at the end where
/// fewer are left. An absent limit is no limit.
pub open spec fn page_end(total: nat, start: Option<usize>, limit: Option<usize>) -> nat {
    let from = page_start(total, start);
    match limit {
        Some(l) => if from + l as nat <= total {
            from + l as nat
        } else {
            total
        },
        None => total,
    }
}

/// The keys of the page.
pub open spec fn page_keys(
    keys: Seq<i64>,
    start: Option<usize>,
    limit: Option<usize>,
) -> Seq<i64> {
    keys.subrange(
        page_start(keys.len(), start) as int,
        page_end(keys.len(), start, limit) as int,
    )
}

/// The answer to a query over the rows `table`: the number of selected keys,
/// and the records of the keys of the page.
pub open spec fn answer(
    table: Seq<Record>,
    keyword: Option<Seq<char>>,
    sort_order: Option<(Sort, Order)>,
    start: Option<usize>,
    limit: Option<usize>,
) -> QueryResult {
    let keys = selected(table, keyword, sort_order);
    QueryResult { total: keys.len(), page: resolved(table, page_keys(keys, start, limit)) }
}

/// "Newest first" is a total order on keys.
pub proof fn newest_first_is_total()
    ensures
        total_ordering(newest_first()),
{
}

/// Whether `c` is a separator.
fn separator(c: char) -> (r: bool)
    ensures
        r == is_separator(c),
{
    c == '_' || c == '-' || c == ':' || c == ';' || c == ',' || c == '(' || c == ')' || c == '['
        || c == ']' || c == '/' || c == '!' || c == '?' || c == ' '
}

/// Whether `keyword` is made of separators alone.
pub fn blank(keyword: &str) -> (r: bool)
    ensures
        r == is_blank(keyword@),
{
    for c in it: keyword.chars()
        invariant
            it.seq() == keyword@,
            forall|i: int| 0 <= i < it.index() ==> is_separator(#[trigger] keyword@[i]),
    {
        if !separator(c) {
            return false;
        }
    }
    true
}

/// Prepares the search for `keyword`: nothing where it is absent or blank,
/// else its characters in lower case.
pub fn needle(keyword: Option<&str>) -> (r: Option<Vec<char>>)
    ensures
        r.deep_view() == needle_of(keyword.deep_view()),
{
    match keyword {
        Some(k) => {
            if blank(k) {
                None
            } else {
                let lower = to_lowercase(k);
                Some(chars_of(lower.as_str()))
            }
        },
        None => None,
    }
}

/// Whether `message` passes the prepared search.
pub fn admitted(needle: &Option<Vec<char>>, message: &str) -> (r: bool)
    ensures
        r == admits(needle.deep_view(), message@),
{
    match needle {
        Some(n) => {
            let lower = to_lowercase(message);
            let hay = chars_of(lower.as_str());
            assert(n.deep_view() =~= n@);
            contains(&hay, n)
        },
        None => true,
    }
}

/// Whether a post with the text `message` passes the filter `keyword`.
pub fn passes(keyword: Option<&str>, message: &str) -> (r: bool)
    ensures
        r == accepts(keyword.deep_view(), message@),
{
    let prepared = needle(keyword);
    admitted(&prepared, message)
}

/// Merges two runs of keys, each newest first, into one.
fn merge(left: &Vec<i64>, right: &Vec<i64>) -> (r: Vec<i64>)
    requires
        descending(left@),
        descending(right@),
    ensures
        descending(r@),
        r@.to_multiset() == left@.to_multiset().add(right@.to_multiset()),
{
    let mut out: Vec<i64> = Vec::new();
    let mut i: usize = 0;
    let mut j: usize = 0;
    proof {
        broadcast use vstd::multiset::group_multiset_axioms;

        assert(left@.take(0) =~= out@);
        assert(right@.take(0) =~= out@);
        to_multiset_len(out@);
    }
    while i < left.len() || j < right.len()
        invariant
            i <= left.len(),
            j <= right.len(),
            descending(left@),
            descending(right@),
            descending(out@),
            out@.to_multiset() == left@.take(i as int).to_multiset().add(
                right@.take(j as int).to_multiset(),
            ),
            forall|k: int| 0 <= k < out.len() && i < left.len() ==> out[k] >= left[i as int],
            forall|k: int| 0 <= k < out.len() && j < right.len() ==> out[k] >= right[j as int],
        decreases left.len() - i + right.len() - j,
    {
        let ghost before = out@;
        if j == right.len() || (i < left.len() && left[i] >= right[j]) {
            let key: i64 = left[i];
            out.push(key);
            proof {
                to_multiset_build(before, key);
                to_multiset_build(left@.take(i as int), key);
                assert(left@.take(i + 1) =~= left@.take(i as int).push(key));
                assert(out@.to_multiset() =~= left@.take(i + 1).to_multiset().add(
                    right@.take(j as int).to_multiset(),
                ));
            }
            i += 1;
        } else {
            let key: i64 = right[j];
            out.push(key);
            proof {
                to_multiset_build(before, key);
                to_multiset_build(right@.take(j as int), key);
                assert(right@.take(j + 1) =~= right@.take(j as int).push(key));
                assert(out@.to_multiset() =~= left@.take(i as int).to_multiset().add(
                    right@.take(j + 1).to_multiset(),
                ));
            }
            j += 1;
        }
    }
    proof {
        assert(left@.take(left.len() as int) =~= left@);
        assert(right@.take(right.len() as int) =~= right@);
    }
    out
}

/// The keys `keys[from..to]`, rearranged newest first: halves are sorted
/// apart and merged.
fn sort_run(keys: &Vec<i64>, from: usize, to: usize) -> (r: Vec<i64>)
    requires
        from <= to <= keys.len(),
    ensures
        descending(r@),
        r@.to_multiset() == keys@.subrange(from as int, to as int).to_multiset(),
    decreases to - from,
{
    let ghost run = keys@.subrange(from as int, to as int);
    if to - from <= 1 {
        let mut out: Vec<i64> = Vec::new();
        if from < to {
            out.push(keys[from]);
        }
        assert(out@ =~= run);
        out
    } else {
        let mid: usize = from + (to - from) / 2;
        let left = sort_run(keys, from, mid);
        let right = sort_run(keys, mid, to);
        proof {
            let head = keys@.subrange(from as int, mid as int);
            let tail = keys@.subrange(mid as int, to as int);
            assert(run =~= head + tail);
            lemma_multiset_commutative(head, tail);
        }
        merge(&left, &right)
    }
}

/// Rearranges `keys` newest first.
pub fn sort_newest_first(keys: &Vec<i64>) -> (r: Vec<i64>)
    ensures
        r@ == keys@.sort_by(newest_first()),
        descending(r@),
        r@.to_multiset() == keys@.to_multiset(),
{
    let out = sort_run(keys, 0, keys.len());
    proof {
        assert(keys@.subrange(0, keys.len() as int) =~= keys@);
        newest_first_is_total();
        keys@.lemma_sort_by_ensures(newest_first());
        lemma_sorted_unique(out@, keys@.sort_by(newest_first()), newest_first());
    }
    out
}

/// Puts `keys` in the order that `sort_order` asks for.
pub fn order(keys: Vec<i64>, sort_order: &Option<(Sort, Order)>) -> (r: Vec<i64>)
    ensures
        r@ == ordered(keys@, *sort_order),
        r@.to_multiset() == keys@.to_multiset(),
        sort_order is Some ==> descending(r@),
{
    match sort_order {
        Some((Sort::Time, Order::Desc)) => sort_newest_first(&keys),
        None => keys,
    }
}

/// Taking one more row of the table adds that row to the matching ones where
/// it passes the filter, and nothing otherwise.
proof fn matching_grows(table: Seq<Record>, keyword: Option<Seq<char>>, i: int)
    requires
        0 <= i < table.len(),
    ensures
        matching(table.take(i + 1), keyword) == if accepts(keyword, table[i].body) {
            matching(table.take(i), keyword).push(table[i])
        } else {
            matching(table.take(i), keyword)
        },
{
    reveal(Seq::filter);
    assert(table.take(i + 1).drop_last() =~= table.take(i));
}

/// The keys of the rows that pass `keyword`, in the order of `sort_order`.
pub fn select(
    rows: &Vec<Post>,
    keyword: Option<&str>,
    sort_order: Option<(Sort, Order)>,
) -> (r: Vec<i64>)
    ensures
        r@ == selected(records(rows@), keyword.deep_view(), sort_order),
{
    let prepared = needle(keyword);
    let ghost table = records(rows@);
    let ghost filter = keyword.deep_view();
    let mut keys: Vec<i64> = Vec::new();
    proof {
        reveal(Seq::filter);
    }
    for i in 0..rows.len()
        invariant
            table == records(rows@),
            filter == keyword.deep_view(),
            prepared.deep_view() == needle_of(filter),
            keys@ == keys_of(matching(table.take(i as int), filter)),
    {
        proof {
            matching_grows(table, filter, i as int);
        }
        if admitted(&prepared, rows[i].message.as_str()) {
            keys.push(rows[i].id);
        }
    }
    assert(table.take(rows.len() as int) =~= table);
    order(keys, &sort_order)
}

/// A record that the table holds is found under its key, and what is found
/// under a key has that key.
pub proof fn get_finds(table: Seq<Record>, at: int)
    requires
        0 <= at < table.len(),
    ensures
        get(table, table[at].key) matches Some(found) && found.key == table[at].key,
    decreases table.len(),
{
    if table.first().key != table[at].key {
        get_finds(table.drop_first(), at - 1);
    }
}

/// Every record that passes the filter is a row of the table.
proof fn matching_is_of_table(table: Seq<Record>, keyword: Option<Seq<char>>, i: int)
    requires
        0 <= i < matching(table, keyword).len(),
    ensures
        exists|at: int| 0 <= at < table.len() && table[at] == matching(table, keyword)[i],
    decreases table.len(),
{
    reveal(Seq::filter);
    if table.len() > 0 {
        let rest = matching(table.drop_last(), keyword);
        if i < rest.len() {
            matching_is_of_table(table.drop_last(), keyword, i);
            let at = choose|at: int|
                0 <= at < table.drop_last().len() && table.drop_last()[at] == rest[i];
            assert(table[at] == matching(table, keyword)[i]);
        } else {
            assert(table[table.len() - 1] == matching(table, keyword)[i]);
        }
    }
}

/// The table holds a record under every key that a query selects.
pub proof fn selected_keys_are_held(
    table: Seq<Record>,
    keyword: Option<Seq<char>>,
    sort_order: Option<(Sort, Order)>,
    i: int,
)
    requires
        0 <= i < selected(table, keyword, sort_order).len(),
    ensures
        get(table, selected(table, keyword, sort_order)[i]) matches Some(found) && found.key
            == selected(table, keyword, sort_order)[i],
{
    broadcast use vstd::seq_lib::group_to_multiset_ensures;

    let passed = matching(table, keyword);
    let keys = keys_of(passed);
    let chosen = selected(table, keyword, sort_order);
    let key = chosen[i];
    if sort_order is Some {
        newest_first_is_total();
        keys.lemma_sort_by_ensures(newest_first());
    }
    assert(chosen.contains(key));
    let j = choose|j: int| 0 <= j < keys.len() && keys[j] == key;
    matching_is_of_table(table, keyword, j);
    let at = choose|at: int| 0 <= at < table.len() && table[at] == passed[j];
    get_finds(table, at);
}

/// The first row with the key `key`, if there is one.
pub fn find(rows: &Vec<Post>, key: i64) -> (r: Option<usize>)
    ensures
        match r {
            Some(at) => at < rows.len() && get(records(rows@), key) == Some(rows[at as int]@),
            None => get(records(rows@), key) is None,
        },
{
    let ghost table = records(rows@);
    let mut at: usize = 0;
    assert(table.skip(0) =~= table);
    while at < rows.len()
        invariant
            at <= rows.len(),
            table == records(rows@),
            get(table, key) == get(table.skip(at as int), key),
        decreases rows.len() - at,
    {
        if rows[at].id == key {
            return Some(at);
        }
        assert(table.skip(at as int).drop_first() =~= table.skip(at + 1));
        at += 1;
    }
    None
}

/// Where the page begins among `total` keys.
fn first_of_page(total: usize, start: Option<usize>) -> (r: usize)
    ensures
        r == page_start(total as nat, start),
{
    match start {
        Some(s) => if s <= total {
            s
        } else {
            total
        },
        None => 0,
    }
}

/// Where the page that begins at `from` ends among `total` keys.
fn end_of_page(total: usize, start: Option<usize>, from: usize, limit: Option<usize>) -> (r: usize)
    requires
        from == page_start(total as nat, start),
    ensures
        r == page_end(total as nat, start, limit),
        from <= r <= total,
{
    match limit {
        Some(l) => if l <= total - from {
            from + l
        } else {
            total
        },
        None => total,
    }
}

/// Answers a query over the rows of the table: filters them by `keyword`,
/// orders the keys that are left by `sort_order`, cuts the page that begins
/// `start` keys in and holds at most `limit` keys, and resolves each key of
/// the page to its record.
pub fn query(
    rows: &Vec<Post>,
    keyword: Option<&str>,
    sort_order: Option<(Sort, Order)>,
    start: Option<usize>,
    limit: Option<usize>,
) -> (r: Posts)
    ensures
        r@ == answer(records(rows@), keyword.deep_view(), sort_order, start, limit),
        r.total == matching(records(rows@), keyword.deep_view()).len(),
        r.posts.len() <= r.total,
        limit matches Some(l) ==> r.posts.len() <= l,
        start is None && limit is None ==> r.posts.len() == r.total,
        sort_order is Some ==> descending(keys_of(r@.page)),
{
    let ghost table = records(rows@);
    let ghost filter = keyword.deep_view();
    proof {
        total_counts_matches(table, filter, sort_order, start, limit);
        if sort_order is Some {
            page_keys_descend(table, filter, sort_order, start, limit);
        }
    }
    let keys = select(rows, keyword, sort_order);
    let total: usize = keys.len();
    let from: usize = first_of_page(total, start);
    let to: usize = end_of_page(total, start, from, limit);
    let mut posts: Vec<Post> = Vec::with_capacity(total);
    for i in from..to
        invariant
            from <= to <= keys.len(),
            table == records(rows@),
            keys@ == selected(table, filter, sort_order),
            records(posts@) == resolved(table, keys@.subrange(from as int, i as int)),
    {
        let key: i64 = keys[i];
        proof {
            selected_keys_are_held(table, filter, sort_order, i as int);
        }
        match find(rows, key) {
            Some(at) => {
                posts.push(Post { id: rows[at].id, message: rows[at].message.clone() });
                let ghost earlier = keys@.subrange(from as int, i as int);
                assert(keys@.subrange(from as int, i + 1) =~= earlier.push(key));
                assert(resolved(table, earlier.push(key)) =~= resolved(table, earlier).push(
                    get(table, key).unwrap(),
                ));
            },
            None => {},
        }
    }
    Posts { posts, total }
}

/// Ordering keeps the keys: the same keys, each as often as before.
proof fn ordered_keeps_keys(keys: Seq<i64>, sort_order: Option<(Sort, Order)>)
    ensures
        ordered(keys, sort_order).to_multiset() == keys.to_multiset(),
        ordered(keys, sort_order).len() == keys.len(),
        sort_order is Some ==> descending(ordered(keys, sort_order)),
{
    if sort_order is Some {
        let sorted = keys.sort_by(newest_first());
        newest_first_is_total();
        keys.lemma_sort_by_ensures(newest_first());
        to_multiset_len(keys);
        to_multiset_len(sorted);
        assert forall|i: int, j: int| 0 <= i < j < sorted.len() implies sorted[i]
            >= sorted[j] by {
            assert(newest_first()(sorted[i], sorted[j]));
        }
    }
}

/// Two filters that search for the same thing let the same records pass.
proof fn matching_by_needle(
    table: Seq<Record>,
    one: Option<Seq<char>>,
    other: Option<Seq<char>>,
)
    requires
        needle_of(one) == needle_of(other),
    ensures
        matching(table, one) == matching(table, other),
    decreases table.len(),
{
    reveal(Seq::filter);
    if table.len() > 0 {
        matching_by_needle(table.drop_last(), one, other);
    }
}

/// Without a keyword every record passes.
pub proof fn no_keyword_keeps_all(table: Seq<Record>)
    ensures
        matching(table, None) == table,
    decreases table.len(),
{
    reveal(Seq::filter);
    if table.len() > 0 {
        no_keyword_keeps_all(table.drop_last());
    }
}

/// The total of an answer is the number of records that pass the keyword
/// filter, whatever the order, the offset and the limit are.
pub proof fn total_counts_matches(
    table: Seq<Record>,
    keyword: Option<Seq<char>>,
    sort_order: Option<(Sort, Order)>,
    start: Option<usize>,
    limit: Option<usize>,
)
    ensures
        answer(table, keyword, sort_order, start, limit).total == matching(table, keyword).len(),
{
    ordered_keeps_keys(keys_of(matching(table, keyword)), sort_order);
}

/// A limit of 0 gives an empty page, and the total that any other limit
/// gives.
pub proof fn limit_zero_gives_empty_page(
    table: Seq<Record>,
    keyword: Option<Seq<char>>,
    sort_order: Option<(Sort, Order)>,
    start: Option<usize>,
)
    ensures
        answer(table, keyword, sort_order, start, Some(0)).page == Seq::<Record>::empty(),
        answer(table, keyword, sort_order, start, Some(0)).total == matching(
            table,
            keyword,
        ).len(),
{
    total_counts_matches(table, keyword, sort_order, start, Some(0));
}

/// An offset at or beyond the total gives an empty page, and the same total.
pub proof fn offset_at_total_gives_empty_page(
    table: Seq<Record>,
    keyword: Option<Seq<char>>,
    sort_order: Option<(Sort, Order)>,
    start: usize,
    limit: Option<usize>,
)
    requires
        start >= matching(table, keyword).len(),
    ensures
        answer(table, keyword, sort_order, Some(start), limit).page == Seq::<Record>::empty(),
        answer(table, keyword, sort_order, Some(start), limit).total == matching(
            table,
            keyword,
        ).len(),
{
    total_counts_matches(table, keyword, sort_order, Some(start), limit);
    assert(answer(table, keyword, sort_order, Some(start), limit).page =~= Seq::<
        Record,
    >::empty());
}

/// Without offset and limit the page holds a record for every key that
/// passed the filter.
pub proof fn unlimited_page_holds_all(
    table: Seq<Record>,
    keyword: Option<Seq<char>>,
    sort_order: Option<(Sort, Order)>,
)
    ensures
        answer(table, keyword, sort_order, None, None).page.len() == answer(
            table,
            keyword,
            sort_order,
            None,
            None,
        ).total,
{
}

/// A page never holds more records than the limit, nor more than the total.
pub proof fn page_is_within_limit(
    table: Seq<Record>,
    keyword: Option<Seq<char>>,
    sort_order: Option<(Sort, Order)>,
    start: Option<usize>,
    limit: Option<usize>,
)
    ensures
        answer(table, keyword, sort_order, start, limit).page.len() <= answer(
            table,
            keyword,
            sort_order,
            start,
            limit,
        ).total,
        limit matches Some(l) ==> answer(table, keyword, sort_order, start, limit).page.len()
            <= l,
{
}

/// Under the order by time, descending, no record of the page is followed
/// by one with a larger key; and each record of the page has the key that
/// the query selected at its place.
pub proof fn page_is_newest_first(
    table: Seq<Record>,
    keyword: Option<Seq<char>>,
    sort_order: Option<(Sort, Order)>,
    start: Option<usize>,
    limit: Option<usize>,
    i: int,
    j: int,
)
    requires
        sort_order is Some,
        0 <= i < j < answer(table, keyword, sort_order, start, limit).page.len(),
    ensures
        answer(table, keyword, sort_order, start, limit).page[i].key >= answer(
            table,
            keyword,
            sort_order,
            start,
            limit,
        ).page[j].key,
{
    let keys = selected(table, keyword, sort_order);
    let from = page_start(keys.len(), start) as int;
    ordered_keeps_keys(keys_of(matching(table, keyword)), sort_order);
    selected_keys_are_held(table, keyword, sort_order, from + i);
    selected_keys_are_held(table, keyword, sort_order, from + j);
}

/// Under the order by time, descending, the keys of the page never rise.
pub proof fn page_keys_descend(
    table: Seq<Record>,
    keyword: Option<Seq<char>>,
    sort_order: Option<(Sort, Order)>,
    start: Option<usize>,
    limit: Option<usize>,
)
    requires
        sort_order is Some,
    ensures
        descending(keys_of(answer(table, keyword, sort_order, start, limit).page)),
{
    let page = answer(table, keyword, sort_order, start, limit).page;
    assert forall|i: int, j: int| 0 <= i < j < keys_of(page).len() implies keys_of(page)[i]
        >= keys_of(page)[j] by {
        page_is_newest_first(table, keyword, sort_order, start, limit, i, j);
    }
}

/// No two rows of the table have the same key.
pub open spec fn has_distinct_keys(table: Seq<Record>) -> bool {
    forall|i: int, j: int| 0 <= i < j < table.len() ==> table[i].key != table[j].key
}

/// In a table with distinct keys, what is found under the key of a row is
/// that row.
pub proof fn get_is_the_row(table: Seq<Record>, at: int)
    requires
        has_distinct_keys(table),
        0 <= at < table.len(),
    ensures
        get(table, table[at].key) == Some(table[at]),
    decreases table.len(),
{
    if at > 0 {
        let rest = table.drop_first();
        assert forall|i: int, j: int| 0 <= i < j < rest.len() implies rest[i].key
            != rest[j].key by {
            assert(rest[i] == table[i + 1] && rest[j] == table[j + 1]);
        }
        get_is_the_row(rest, at - 1);
    }
}

/// In a table with distinct keys, every record of the page is a row of the
/// table that passes the keyword filter.
pub proof fn page_records_pass(
    table: Seq<Record>,
    keyword: Option<Seq<char>>,
    sort_order: Option<(Sort, Order)>,
    start: Option<usize>,
    limit: Option<usize>,
    i: int,
)
    requires
        has_distinct_keys(table),
        0 <= i < answer(table, keyword, sort_order, start, limit).page.len(),
    ensures
        accepts(keyword, answer(table, keyword, sort_order, start, limit).page[i].body),
        table.contains(answer(table, keyword, sort_order, start, limit).page[i]),
{
    let passed = matching(table, keyword);
    let keys = keys_of(passed);
    let chosen = selected(table, keyword, sort_order);
    let from = page_start(chosen.len(), start) as int;
    let key = chosen[from + i];
    ordered_keeps_keys(keys, sort_order);
    to_multiset_contains(chosen, key);
    to_multiset_contains(keys, key);
    let j = choose|j: int| 0 <= j < keys.len() && keys[j] == key;
    matching_is_of_table(table, keyword, j);
    let at = choose|at: int| 0 <= at < table.len() && table[at] == passed[j];
    get_is_the_row(table, at);
    table.lemma_filter_pred(passing(keyword), j);
}

/// A keyword made of separators alone is no filter: it gives the answer
/// that no keyword gives.
pub proof fn blank_keyword_is_no_keyword(
    table: Seq<Record>,
    keyword: Seq<char>,
    sort_order: Option<(Sort, Order)>,
    start: Option<usize>,
    limit: Option<usize>,
)
    requires
        is_blank(keyword),
    ensures
        answer(table, Some(keyword), sort_order, start, limit) == answer(
            table,
            None,
            sort_order,
            start,
            limit,
        ),
{
    matching_by_needle(table, Some(keyword), None);
}

} // verus!
