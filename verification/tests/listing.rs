use microblog::listing::{back, next, offset, post_title, title, totals, SEPARATOR};

#[test]
fn separator_is_a_bullet_between_spaces() {
    assert_eq!(SEPARATOR, " • ");
}

#[test]
fn offset_counts_the_posts_of_earlier_pages() {
    assert_eq!(offset(0, 20), Some(0));
    assert_eq!(offset(1, 20), Some(0));
    assert_eq!(offset(2, 20), Some(20));
    assert_eq!(offset(7, 3), Some(18));
    assert_eq!(offset(5, 0), Some(0));
    assert_eq!(offset(usize::MAX, 1), Some(usize::MAX - 1));
}

#[test]
fn offset_that_cannot_be_written_is_none() {
    assert_eq!(offset(usize::MAX, 2), None);
    assert_eq!(offset(3, usize::MAX), None);
    assert_eq!(offset(2, usize::MAX), Some(usize::MAX));
}

#[test]
fn next_page_exists_while_posts_are_left() {
    assert_eq!(next(None, 20, 0), None);
    assert_eq!(next(None, 20, 20), None);
    assert_eq!(next(None, 20, 21), Some(2));
    assert_eq!(next(Some(1), 20, 21), Some(2));
    assert_eq!(next(Some(2), 20, 40), None);
    assert_eq!(next(Some(2), 20, 41), Some(3));
    assert_eq!(next(Some(0), 20, 5), Some(1));
    assert_eq!(next(Some(0), 20, 0), None);
}

#[test]
fn next_page_at_the_limits_of_numbers() {
    assert_eq!(next(Some(usize::MAX), 2, usize::MAX), None);
    assert_eq!(next(Some(usize::MAX), 1, usize::MAX), None);
    assert_eq!(next(Some(usize::MAX), 0, 1), None);
    assert_eq!(next(Some(usize::MAX - 1), 0, 1), Some(usize::MAX));
    assert_eq!(next(Some(4), 0, 1), Some(5));
    assert_eq!(next(Some(4), 0, 0), None);
}

#[test]
fn back_names_the_page_before_from_page_three_on() {
    assert_eq!(back(0), None);
    assert_eq!(back(1), None);
    assert_eq!(back(2), None);
    assert_eq!(back(3), Some(2));
    assert_eq!(back(usize::MAX), Some(usize::MAX - 1));
}

#[test]
fn title_of_the_first_page() {
    assert_eq!(title(None, None, "mb", None), "mb");
    assert_eq!(title(None, None, "mb", Some("notes")), "mb • notes");
    assert_eq!(title(None, Some(1), "mb", Some("notes")), "mb • notes");
    assert_eq!(title(Some(""), Some(1), "mb", Some("notes")), "mb • notes");
    assert_eq!(title(None, Some(0), "mb", Some("notes")), "mb");
}

#[test]
fn title_of_later_pages_and_searches() {
    assert_eq!(title(None, Some(2), "mb", Some("notes")), "Page 2 • mb");
    assert_eq!(title(None, Some(120), "mb", None), "Page 120 • mb");
    assert_eq!(title(Some("rust"), None, "mb", Some("notes")), "rust • Search • mb");
    assert_eq!(
        title(Some("rust"), Some(3), "mb", Some("notes")),
        "rust • Search • Page 3 • mb"
    );
    assert_eq!(title(Some("rust"), Some(1), "mb", None), "rust • Search • mb");
    assert_eq!(
        title(None, Some(usize::MAX), "mb", None),
        format!("Page {} • mb", usize::MAX)
    );
}

#[test]
fn title_of_one_post() {
    assert_eq!(post_title("11/09/2022 18:34", "mb"), "11/09/2022 18:34 • mb");
    assert_eq!(post_title("", ""), " • ");
}

#[test]
fn totals_tell_page_pages_and_posts() {
    assert_eq!(totals(None, "1", 0), None);
    assert_eq!(totals(Some(3), "7", 0), None);
    assert_eq!(totals(None, "1", 1), Some(String::from("Page 1 / 1 (1 post total)")));
    assert_eq!(totals(Some(2), "3", 45), Some(String::from("Page 2 / 3 (45 posts total)")));
    assert_eq!(totals(Some(0), "inf", 2), Some(String::from("Page 0 / inf (2 posts total)")));
}

#[test]
fn word_for_posts_goes_by_the_last_digits() {
    let line = |n: usize| totals(None, "", n).unwrap();
    assert_eq!(line(1), "Page 1 /  (1 post total)");
    assert_eq!(line(2), "Page 1 /  (2 posts total)");
    assert_eq!(line(4), "Page 1 /  (4 posts total)");
    assert_eq!(line(5), "Page 1 /  (5 posts total)");
    assert_eq!(line(10), "Page 1 /  (10 posts total)");
    assert_eq!(line(11), "Page 1 /  (11 posts total)");
    assert_eq!(line(19), "Page 1 /  (19 posts total)");
    assert_eq!(line(21), "Page 1 /  (21 post total)");
    assert_eq!(line(101), "Page 1 /  (101 post total)");
    assert_eq!(line(111), "Page 1 /  (111 posts total)");
    assert_eq!(line(1000), "Page 1 /  (1000 posts total)");
}
