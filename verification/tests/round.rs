use mastotg::as2::{Context, Create, Page, Post};
use mastotg::db::State;
use mastotg::error::{Error, ParseError};
use mastotg::link::MAX_URL_LEN;
use mastotg::round::{feed_query, feed_uri, initial_state, PageStep, Round};

fn create(id: &str) -> Create {
    Create {
        id: id.to_owned(),
        kind: "Create".to_owned(),
        object: Post {
            id: id.trim_end_matches("/activity").to_owned(),
            kind: "Note".to_owned(),
            in_reply_to: None,
            published: "2023-08-16T08:58:44Z".to_owned(),
            url: "https://example.org/@a/1".to_owned(),
            sensitive: false,
            content: "<p>hi</p>".to_owned(),
            attachment: vec![],
            tag: vec![],
        },
    }
}

fn page(ids: &[i64]) -> Page {
    Page {
        context: Context::Str("https://www.w3.org/ns/activitystreams".to_owned()),
        id: "https://example.org/users/a/outbox?page=true".to_owned(),
        kind: "OrderedCollectionPage".to_owned(),
        next: None,
        prev: None,
        ordered_items: ids
            .iter()
            .map(|n| create(&format!("https://example.org/users/a/statuses/{}/activity", n)))
            .collect(),
    }
}

fn pair(k: &str, v: &str) -> (String, String) {
    (k.to_owned(), v.to_owned())
}

#[test]
fn the_first_state_is_given_stored_or_new() {
    assert_eq!(initial_state(Some(7), Some(State::new(3))), State::new(7));
    assert_eq!(initial_state(Some(0), None), State::new(0));
    assert_eq!(initial_state(Some(-1), Some(State::new(3))), State::new(3));
    assert_eq!(initial_state(None, Some(State::new(3))), State::new(3));
    assert_eq!(initial_state(None, None), State::new(-1));
    assert_eq!(initial_state(Some(-5), None), State::default());
    assert_eq!(State::default().min_id, -1);
    assert!(State::default().fast_forward());
    assert!(!State::new(0).fast_forward());
}

#[test]
fn the_query_carries_the_cursor() {
    assert_eq!(feed_query(&State::new(5), None), vec![pair("min_id", "5"), pair("page", "true")]);
    assert_eq!(
        feed_query(&State::new(0), Some(110)),
        vec![pair("min_id", "0"), pair("max_id", "110"), pair("page", "true")]
    );
    assert_eq!(feed_query(&State::new(-1), None), vec![pair("page", "true")]);
    assert_eq!(feed_query(&State::new(-1), Some(-3)), vec![pair("max_id", "-3"), pair("page", "true")]);
}

#[test]
fn the_first_address_of_a_round() {
    assert_eq!(feed_uri(&State::new(5), None, Some(9)), Ok("stdio://in".to_owned()));
    assert_eq!(
        feed_uri(&State::new(110896810336575450), Some("https://example.org/users/a/outbox"), None),
        Ok("https://example.org/users/a/outbox?min_id=110896810336575450&page=true".to_owned())
    );
    assert_eq!(
        feed_uri(&State::new(-1), Some("https://example.org/users/a/outbox?x=1#top"), Some(7)),
        Ok("https://example.org/users/a/outbox?x=1&max_id=7&page=true#top".to_owned())
    );
    assert_eq!(
        feed_uri(&State::new(5), Some("example.org/outbox"), None),
        Err(Error::Parse(ParseError::InvalidUrl))
    );
}

#[test]
fn a_round_delivers_a_page_and_moves_the_cursor_to_its_newest_post() {
    let mut round = Round::begin(&State::new(0), true, true);
    assert_eq!(round.on_page(&page(&[5, 4, 3])), Ok(PageStep::Deliver));
    assert_eq!(round.state(), State::new(0));
    assert!(!round.delivered());
    assert!(round.is_over());
    assert_eq!(round.state(), State::new(5));
}

#[test]
fn a_round_follows_pages_until_one_is_empty() {
    let mut round = Round::begin(&State::new(2), true, false);
    assert_eq!(round.on_page(&page(&[5, 4, 3])), Ok(PageStep::Deliver));
    assert!(round.delivered());
    assert_eq!(round.state(), State::new(5));
    assert_eq!(round.on_page(&page(&[7, 6])), Ok(PageStep::Deliver));
    assert!(round.delivered());
    assert_eq!(round.on_page(&page(&[])), Ok(PageStep::Stop));
    assert!(round.is_over());
    assert_eq!(round.state(), State::new(7));
    assert_eq!(round.on_page(&page(&[9])), Ok(PageStep::Stop));
    assert_eq!(round.state(), State::new(7));
}

#[test]
fn a_round_from_the_standard_input_reads_one_page() {
    let mut round = Round::begin(&State::new(2), false, false);
    assert_eq!(round.on_page(&page(&[5])), Ok(PageStep::Deliver));
    assert!(!round.delivered());
    assert_eq!(round.state(), State::new(5));
}

#[test]
fn a_first_round_fast_forwards() {
    let mut round = Round::begin(&State::default(), true, false);
    assert_eq!(round.on_page(&page(&[5, 4, 3])), Ok(PageStep::Stop));
    assert!(round.is_over());
    assert_eq!(round.state(), State::new(5));

    let mut round = Round::begin(&State::default(), true, false);
    assert_eq!(round.on_page(&page(&[])), Ok(PageStep::Stop));
    assert_eq!(round.state(), State::new(-1));
}

#[test]
fn a_page_whose_newest_post_has_no_number_ends_the_round() {
    let mut round = Round::begin(&State::new(2), true, false);
    let mut bad = page(&[5]);
    bad.ordered_items[0].id = "https://example.org/users/a/statuses/five".to_owned();
    assert_eq!(round.on_page(&bad), Err(ParseError::NoIntegerId));
    assert!(round.is_over());
    assert!(!round.delivered());
    assert_eq!(round.state(), State::new(2));
}

#[test]
fn a_delivery_that_is_not_reported_leaves_the_cursor() {
    let mut round = Round::begin(&State::new(2), true, false);
    assert_eq!(round.on_page(&page(&[5, 4, 3])), Ok(PageStep::Deliver));
    assert_eq!(round.state(), State::new(2));
}

#[test]
fn the_cursor_never_falls() {
    let mut round = Round::begin(&State::new(9), true, false);
    assert_eq!(round.on_page(&page(&[5, 4])), Ok(PageStep::Deliver));
    assert!(round.delivered());
    assert_eq!(round.state(), State::new(9));
    assert_eq!(round.on_page(&page(&[12])), Ok(PageStep::Deliver));
    assert!(round.delivered());
    assert_eq!(round.on_page(&page(&[11])), Ok(PageStep::Deliver));
    assert!(round.delivered());
    assert_eq!(round.state(), State::new(12));
}

#[test]
fn an_address_of_the_feed_beyond_the_longest_is_refused() {
    let head = "https://example.org/";
    let longest = format!("{}{}", head, "a".repeat(MAX_URL_LEN - head.len()));
    let uri = feed_uri(&State::new(5), Some(&longest), None).unwrap();
    assert_eq!(uri.len(), MAX_URL_LEN + "?min_id=5&page=true".len());
    let longer = format!("{}a", longest);
    assert_eq!(feed_uri(&State::new(5), Some(&longer), None), Err(Error::Parse(ParseError::InvalidUrl)));
}
