use microblog::text::{chars_of, contains, push_decimal};

fn decimal(n: i64) -> String {
    let mut out = String::new();
    push_decimal(&mut out, n);
    out
}

#[test]
fn decimal_of_small_and_large_numbers() {
    assert_eq!(decimal(0), "0");
    assert_eq!(decimal(7), "7");
    assert_eq!(decimal(10), "10");
    assert_eq!(decimal(1000000), "1000000");
    assert_eq!(decimal(-1), "-1");
    assert_eq!(decimal(-120), "-120");
    assert_eq!(decimal(i64::MAX), "9223372036854775807");
    assert_eq!(decimal(i64::MIN), "-9223372036854775808");
}

#[test]
fn decimal_is_appended() {
    let mut out = String::from("id=");
    push_decimal(&mut out, 42);
    assert_eq!(out, "id=42");
}

#[test]
fn chars_of_keeps_every_character() {
    assert_eq!(chars_of(""), Vec::<char>::new());
    assert_eq!(chars_of("aé•"), vec!['a', 'é', '•']);
}

#[test]
fn contains_finds_runs_only() {
    let hay = chars_of("hello world");
    assert!(contains(&hay, &chars_of("")));
    assert!(contains(&hay, &chars_of("hello")));
    assert!(contains(&hay, &chars_of("o w")));
    assert!(contains(&hay, &chars_of("world")));
    assert!(contains(&hay, &chars_of("hello world")));
    assert!(!contains(&hay, &chars_of("hello world!")));
    assert!(!contains(&hay, &chars_of("hw")));
    assert!(!contains(&chars_of(""), &chars_of("a")));
    assert!(contains(&chars_of(""), &chars_of("")));
    assert!(contains(&chars_of("aab"), &chars_of("ab")));
}
