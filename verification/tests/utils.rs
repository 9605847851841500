use mastotg::error::ParseError;
use mastotg::utils::{decimal, int_id};

#[test]
fn int_id_reads_the_trailing_number() {
    assert_eq!(int_id("https://example.org/users/a/statuses/110896"), Ok(110896));
    assert_eq!(int_id("https://example.org/users/a/statuses/110896/activity"), Ok(110896));
    assert_eq!(int_id("/007"), Ok(7));
}

#[test]
fn int_id_refuses_ids_without_a_number() {
    assert_eq!(int_id(""), Err(ParseError::NoIntegerId));
    assert_eq!(int_id("12"), Err(ParseError::NoIntegerId));
    assert_eq!(int_id("/activity"), Err(ParseError::NoIntegerId));
    assert_eq!(int_id("https://example.org/12a"), Err(ParseError::NoIntegerId));
    assert_eq!(int_id("https://example.org/12/"), Err(ParseError::NoIntegerId));
    assert_eq!(int_id("https://example.org/12/activity/activity"), Err(ParseError::NoIntegerId));
}

#[test]
fn int_id_refuses_numbers_beyond_the_cursor() {
    assert_eq!(int_id("/9223372036854775807"), Ok(i64::MAX));
    assert_eq!(int_id("/9223372036854775808"), Err(ParseError::IdOutOfRange));
    assert_eq!(int_id("/99999999999999999999/activity"), Err(ParseError::IdOutOfRange));
}

#[test]
fn decimal_writes_integers() {
    assert_eq!(decimal(0), "0");
    assert_eq!(decimal(42), "42");
    assert_eq!(decimal(-1), "-1");
    assert_eq!(decimal(i64::MAX), "9223372036854775807");
    assert_eq!(decimal(i64::MIN), "-9223372036854775808");
}

#[test]
fn int_id_is_what_the_pattern_and_the_number_say() {
    let re = regex::Regex::new(r"/(\d+?)(?:/activity)?$").unwrap();
    for id in [
        "https://example.org/users/a/statuses/110896/activity",
        "https://example.org/users/a/statuses/110896",
        "/1/2",
        "/1/2/activity",
        "/12/activity/activity",
        "/activity",
        "12/activity",
        "/12/activit",
        "a/٣",
        "a/1٣",
        "a/٣1",
        "/-5",
        "/+5",
        "/5\n",
        "/00000000000000000000000000000005",
        "/9223372036854775808",
        "",
    ] {
        let want = re.captures(id).and_then(|m| m.get(1).unwrap().as_str().parse::<i64>().ok());
        assert_eq!(int_id(id).ok(), want, "{}", id);
    }
}
