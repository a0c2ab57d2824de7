use microblog::db::{Order, Post, Posts, Sort};
use microblog::query::{blank, find, needle, order, passes, query, select, sort_newest_first};

fn post(id: i64, message: &str) -> Post {
    Post { id, message: String::from(message) }
}

fn table() -> Vec<Post> {
    vec![
        post(10, "first"),
        post(20, "Second post"),
        post(30, "third"),
        post(40, "A fourth POST"),
        post(50, "fifth"),
    ]
}

fn ids(posts: &Posts) -> Vec<i64> {
    posts.posts.iter().map(|p| p.id).collect()
}

fn newest() -> Option<(Sort, Order)> {
    Some((Sort::Time, Order::Desc))
}

#[test]
fn keyword_is_case_insensitive_substring() {
    let rows = vec![post(1, "Hello World"), post(2, "goodbye")];
    let found = query(&rows, Some("hello"), newest(), None, None);
    assert_eq!(found.total, 1);
    assert_eq!(found.posts.len(), 1);
    assert_eq!(found.posts[0].id, 1);
    assert_eq!(found.posts[0].message, "Hello World");
}

#[test]
fn keyword_in_upper_case_finds_lower_case_text() {
    assert!(passes(Some("WORLD"), "hello world"));
    assert!(passes(Some("lo w"), "HELLO WORLD"));
    assert!(!passes(Some("worlds"), "hello world"));
}

#[test]
fn keyword_of_separators_is_no_filter() {
    let rows = vec![post(1, "Hello World"), post(2, "goodbye")];
    let blanked = query(&rows, Some("  - "), newest(), None, None);
    let plain = query(&rows, None, newest(), None, None);
    assert_eq!(blanked.total, 2);
    assert_eq!(ids(&blanked), vec![2, 1]);
    assert_eq!(blanked.total, plain.total);
    assert_eq!(ids(&blanked), ids(&plain));
}

#[test]
fn each_separator_is_filler() {
    assert!(blank(""));
    assert!(blank("_-:;,()[]/!? "));
    assert!(!blank("_-a-_"));
    assert!(!blank("\t"));
    assert!(!blank("."));
}

#[test]
fn keyword_with_separators_around_text_is_searched_as_it_is() {
    assert!(!passes(Some(" world "), "hello world"));
    assert!(passes(Some(" world "), "hello world !"));
}

#[test]
fn needle_is_lower_case_text() {
    assert_eq!(needle(None), None);
    assert_eq!(needle(Some(" ")), None);
    assert_eq!(needle(Some("AbC")), Some(vec!['a', 'b', 'c']));
}

#[test]
fn total_does_not_depend_on_offset_and_limit() {
    let rows = table();
    for start in [None, Some(0), Some(1), Some(2), Some(7)] {
        for limit in [None, Some(0), Some(1), Some(5)] {
            let found = query(&rows, Some("post"), newest(), start, limit);
            assert_eq!(found.total, 2);
            let all = query(&rows, None, None, start, limit);
            assert_eq!(all.total, 5);
        }
    }
}

#[test]
fn limit_zero_is_an_empty_page() {
    let found = query(&table(), None, newest(), None, Some(0));
    assert_eq!(found.total, 5);
    assert!(found.posts.is_empty());
}

#[test]
fn offset_at_total_is_an_empty_page() {
    let found = query(&table(), None, newest(), Some(5), None);
    assert_eq!(found.total, 5);
    assert!(found.posts.is_empty());
    let beyond = query(&table(), None, newest(), Some(usize::MAX), Some(usize::MAX));
    assert_eq!(beyond.total, 5);
    assert!(beyond.posts.is_empty());
}

#[test]
fn page_is_cut_after_ordering() {
    let found = query(&table(), None, newest(), Some(1), Some(2));
    assert_eq!(found.total, 5);
    assert_eq!(ids(&found), vec![40, 30]);
    assert_eq!(found.posts[0].message, "A fourth POST");
    assert_eq!(found.posts[1].message, "third");
}

#[test]
fn page_may_be_shorter_than_limit() {
    let found = query(&table(), None, newest(), Some(3), Some(10));
    assert_eq!(ids(&found), vec![20, 10]);
}

#[test]
fn newest_comes_first() {
    let rows = vec![post(30, "c"), post(10, "a"), post(50, "e"), post(20, "b"), post(40, "d")];
    let found = query(&rows, None, newest(), None, None);
    assert_eq!(ids(&found), vec![50, 40, 30, 20, 10]);
    for pair in found.posts.windows(2) {
        assert!(pair[0].id >= pair[1].id);
    }
}

#[test]
fn without_order_rows_keep_table_order() {
    let rows = vec![post(30, "c"), post(10, "a"), post(50, "e")];
    let found = query(&rows, None, None, None, None);
    assert_eq!(ids(&found), vec![30, 10, 50]);
    assert_eq!(select(&rows, None, None), vec![30, 10, 50]);
}

#[test]
fn select_filters_then_orders() {
    let rows = table();
    assert_eq!(select(&rows, Some("POST"), newest()), vec![40, 20]);
    assert_eq!(select(&rows, Some("POST"), None), vec![20, 40]);
    assert_eq!(select(&rows, Some("absent"), newest()), Vec::<i64>::new());
}

#[test]
fn sort_handles_extremes_and_repeats() {
    let keys = vec![0, i64::MIN, 7, i64::MAX, 7, -1];
    assert_eq!(sort_newest_first(&keys), vec![i64::MAX, 7, 7, 0, -1, i64::MIN]);
    assert_eq!(sort_newest_first(&Vec::new()), Vec::<i64>::new());
    assert_eq!(order(vec![1, 3, 2], &None), vec![1, 3, 2]);
    assert_eq!(order(vec![1, 3, 2], &newest()), vec![3, 2, 1]);
}

#[test]
fn find_gives_first_row_of_a_key() {
    let rows = vec![post(1, "a"), post(2, "b"), post(2, "c")];
    assert_eq!(find(&rows, 2), Some(1));
    assert_eq!(find(&rows, 3), None);
    assert_eq!(find(&Vec::new(), 1), None);
}

#[test]
fn empty_table_has_empty_answer() {
    let found = query(&Vec::new(), Some("x"), newest(), Some(3), Some(4));
    assert_eq!(found.total, 0);
    assert!(found.posts.is_empty());
}

#[test]
fn sort_and_order_default_to_time_descending() {
    assert!(matches!(Sort::default(), Sort::Time));
    assert!(matches!(Order::default(), Order::Desc));
}

#[test]
fn sort_agrees_with_the_order_of_integers() {
    let mut keys: Vec<i64> = Vec::new();
    let mut state: u64 = 0x9e37_79b9_7f4a_7c15;
    for _ in 0..1000 {
        state = state.wrapping_mul(6364136223846793005).wrapping_add(1442695040888963407);
        keys.push((state >> 40) as i64 - (1 << 22));
    }
    let mut expected = keys.clone();
    expected.sort_by(|a, b| b.cmp(a));
    assert_eq!(sort_newest_first(&keys), expected);
    let ascending: Vec<i64> = (0..500).collect();
    let descending: Vec<i64> = (0..500).rev().collect();
    assert_eq!(sort_newest_first(&ascending), descending);
    assert_eq!(sort_newest_first(&descending), descending);
}
