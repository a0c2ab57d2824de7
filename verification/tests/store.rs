use microblog::db::{keep, Db, Order, Sort, StorageFault};

fn fresh(name: &str) -> Db {
    let stamp = std::time::SystemTime::now()
        .duration_since(std::time::UNIX_EPOCH)
        .unwrap()
        .as_nanos();
    Db::init(&format!("/tmp/microblog-{name}-{stamp}.redb")).unwrap()
}

fn by_time() -> Option<(Sort, Order)> {
    Some((Sort::Time, Order::Desc))
}

#[test]
fn insert_then_get() {
    let db = fresh("insert-then-get");
    for body in ["", "plain", "with <markup> & \"quotes\"", "several\nlines • unicode"] {
        let key = db.submit(String::from(body)).unwrap();
        let post = db.post(key).unwrap().unwrap();
        assert_eq!(post.id, key);
        assert_eq!(post.message, body);
    }
}

#[test]
fn put_under_a_given_key() {
    let db = fresh("put-key");
    assert_eq!(db.put(-3, String::from("early")).unwrap(), -3);
    assert_eq!(db.put(i64::MAX, String::from("late")).unwrap(), i64::MAX);
    assert_eq!(db.post(-3).unwrap().unwrap().message, "early");
    assert_eq!(db.post(i64::MAX).unwrap().unwrap().message, "late");
    assert!(db.post(0).unwrap().is_none());
}

#[test]
fn put_overwrites_the_same_key() {
    let db = fresh("overwrite");
    db.put(5, String::from("old")).unwrap();
    db.put(5, String::from("new")).unwrap();
    assert_eq!(db.post(5).unwrap().unwrap().message, "new");
    assert_eq!(db.posts(None, None, None, None).unwrap().total, 1);
}

#[test]
fn delete_of_a_missing_key_is_false() {
    let db = fresh("delete-missing");
    assert!(!db.delete(1).unwrap());
    db.put(1, String::from("one")).unwrap();
    assert!(db.delete(1).unwrap());
    assert!(!db.delete(1).unwrap());
    assert!(!db.delete(1).unwrap());
    assert!(db.post(1).unwrap().is_none());
}

#[test]
fn submit_keys_follow_the_clock() {
    let db = fresh("clock");
    let before = chrono::Utc::now().timestamp_micros();
    let key = db.submit(String::from("now")).unwrap();
    let after = chrono::Utc::now().timestamp_micros();
    assert!(before <= key && key <= after);
}

#[test]
fn rows_come_in_key_order() {
    let db = fresh("rows");
    assert!(db.rows().unwrap().is_empty());
    for key in [30, -10, 20] {
        db.put(key, format!("post {key}")).unwrap();
    }
    let rows = db.rows().unwrap();
    let ids: Vec<i64> = rows.iter().map(|p| p.id).collect();
    assert_eq!(ids, vec![-10, 20, 30]);
    assert_eq!(rows[0].message, "post -10");
}

#[test]
fn three_posts_then_delete() {
    let db = fresh("three-posts");
    let first = db.submit(String::from("first")).unwrap();
    let second = db.submit(String::from("second")).unwrap();
    let third = db.submit(String::from("third")).unwrap();
    assert!(first < second && second < third);

    let page = db.posts(None, by_time(), None, Some(2)).unwrap();
    assert_eq!(page.total, 3);
    assert_eq!(page.posts.len(), 2);
    assert_eq!(page.posts[0].message, "third");
    assert_eq!(page.posts[0].id, third);
    assert_eq!(page.posts[1].message, "second");
    assert_eq!(page.posts[1].id, second);

    assert!(db.delete(second).unwrap());

    let rest = db.posts(None, by_time(), None, None).unwrap();
    assert_eq!(rest.total, 2);
    assert_eq!(rest.posts.len(), 2);
    assert_eq!(rest.posts[0].message, "third");
    assert_eq!(rest.posts[1].message, "first");
    assert_eq!(rest.posts[1].id, first);
}

#[test]
fn stored_posts_are_searched_without_case() {
    let db = fresh("search");
    db.put(1, String::from("Hello World")).unwrap();
    db.put(2, String::from("goodbye")).unwrap();
    let found = db.posts(Some("hello"), by_time(), None, None).unwrap();
    assert_eq!(found.total, 1);
    assert_eq!(found.posts[0].message, "Hello World");
    let all = db.posts(Some("  - "), by_time(), None, None).unwrap();
    assert_eq!(all.total, 2);
    assert_eq!(all.posts[0].id, 2);
    assert_eq!(all.posts[1].id, 1);
}

#[test]
fn store_survives_reopening() {
    let stamp = std::time::SystemTime::now()
        .duration_since(std::time::UNIX_EPOCH)
        .unwrap()
        .as_nanos();
    let path = format!("/tmp/microblog-reopen-{stamp}.redb");
    {
        let db = Db::init(&path).unwrap();
        db.put(9, String::from("kept")).unwrap();
    }
    let db = Db::init(&path).unwrap();
    assert_eq!(db.post(9).unwrap().unwrap().message, "kept");
}

#[test]
fn init_fails_where_no_file_can_be_made() {
    let failed = Db::init("/nonexistent-directory/of/microblog/posts.redb");
    assert!(matches!(failed, Err(StorageFault::Open(_))));
}

#[test]
fn init_fails_on_a_table_of_another_type() {
    let stamp = std::time::SystemTime::now()
        .duration_since(std::time::UNIX_EPOCH)
        .unwrap()
        .as_nanos();
    let path = format!("/tmp/microblog-mistyped-{stamp}.redb");
    {
        let db = redb::Database::create(&path).unwrap();
        let tx = db.begin_write().unwrap();
        {
            let mut t = tx
                .open_table(redb::TableDefinition::<u64, u64>::new("post"))
                .unwrap();
            t.insert(1, 2).unwrap();
        }
        tx.commit().unwrap();
    }
    assert!(matches!(Db::init(&path), Err(StorageFault::Table(_))));
}

#[test]
fn stored_page_follows_offset_and_limit() {
    let db = fresh("paging");
    for key in 1..=5 {
        db.put(key, format!("post {key}")).unwrap();
    }
    let page = db.posts(None, by_time(), Some(1), Some(2)).unwrap();
    assert_eq!(page.total, 5);
    let ids: Vec<i64> = page.posts.iter().map(|p| p.id).collect();
    assert_eq!(ids, vec![4, 3]);
    let none = db.posts(None, by_time(), Some(5), Some(2)).unwrap();
    assert_eq!(none.total, 5);
    assert!(none.posts.is_empty());
    let zero = db.posts(Some("post"), by_time(), None, Some(0)).unwrap();
    assert_eq!(zero.total, 5);
    assert!(zero.posts.is_empty());
}

#[test]
fn kept_row_is_added_and_failed_row_is_a_fault() {
    let mut rows = Vec::new();
    assert!(keep(&mut rows, Ok((7, String::from("seven")))).is_ok());
    assert!(keep(&mut rows, Ok((-1, String::from("minus one")))).is_ok());
    assert_eq!(rows.len(), 2);
    assert_eq!(rows[0].id, 7);
    assert_eq!(rows[0].message, "seven");
    assert_eq!(rows[1].id, -1);
    assert_eq!(rows[1].message, "minus one");
    let failed = keep(&mut rows, Err(redb::StorageError::PreviousIo));
    assert!(matches!(
        failed,
        Err(StorageFault::Storage(redb::StorageError::PreviousIo))
    ));
    assert_eq!(rows.len(), 2);
}

#[test]
fn every_stored_row_is_gathered_once() {
    let db = fresh("gather");
    for key in [5, 3, 9, 3, 1, 9] {
        db.put(key, format!("post {key}")).unwrap();
    }
    let rows = db.rows().unwrap();
    let mut ids: Vec<i64> = rows.iter().map(|p| p.id).collect();
    ids.sort();
    assert_eq!(ids, vec![1, 3, 5, 9]);
    for row in rows {
        assert_eq!(row.message, format!("post {}", row.id));
    }
}

#[test]
fn every_post_of_a_stored_page_passes_the_filter() {
    let db = fresh("page-passes");
    db.put(1, String::from("Alpha beta")).unwrap();
    db.put(2, String::from("gamma")).unwrap();
    db.put(3, String::from("BETA max")).unwrap();
    let found = db.posts(Some("beta"), by_time(), None, None).unwrap();
    assert_eq!(found.total, 2);
    assert_eq!(found.posts.len(), 2);
    for post in &found.posts {
        assert!(post.message.to_lowercase().contains("beta"));
    }
}
