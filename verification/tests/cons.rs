use mastotg::as2::{Create, Document, Post};
use mastotg::cons::{
    addresses, classify, compose, de_tg_msg_id, dispatch, plan_post, reply_from_store,
    reply_lookup, ser_tg_msg_id, AlbumItem, DeliveryQueue, IdMap, Layout, Outcome, ReplyLookup,
    Delivered, SendOp, Step,
};
use mastotg::error::{Error, ParseError, ValidationError};
use mastotg::post::MediaMedium;

fn document(media_type: &str, url: &str) -> Document {
    Document {
        kind: "Document".to_owned(),
        media_type: media_type.to_owned(),
        url: url.to_owned(),
        name: None,
    }
}

fn post(id: &str, content: &str, attachment: Vec<Document>) -> Post {
    Post {
        id: id.to_owned(),
        kind: "Note".to_owned(),
        in_reply_to: None,
        published: "2023-08-16T08:58:44Z".to_owned(),
        url: format!("https://example.org/@a/{}", id),
        sensitive: false,
        content: content.to_owned(),
        attachment,
        tag: vec![],
    }
}

fn create(n: i64) -> Create {
    let id = format!("https://example.org/users/a/statuses/{}", n);
    Create {
        id: format!("{}/activity", id),
        kind: "Create".to_owned(),
        object: post(&id, "<p>hi</p>", vec![]),
    }
}

fn current_id(queue: &DeliveryQueue) -> Option<String> {
    queue.current().map(|c| c.object.id.clone())
}

fn status(n: i64) -> String {
    format!("https://example.org/users/a/statuses/{}", n)
}

#[test]
fn no_attachment_is_a_text() {
    assert_eq!(classify(&vec![]), Ok(Layout::Text));
    assert_eq!(dispatch(&vec![], "body".to_owned()), Ok(SendOp::Text { body: "body".to_owned() }));
}

#[test]
fn one_attachment_is_sent_by_its_category() {
    let url = "https://example.org/f";
    assert_eq!(classify(&vec![document("image/png", url)]), Ok(Layout::Single(MediaMedium::Image)));
    assert_eq!(classify(&vec![document("video/mp4", url)]), Ok(Layout::Single(MediaMedium::Video)));
    assert_eq!(classify(&vec![document("audio/ogg", url)]), Ok(Layout::Single(MediaMedium::Audio)));
    assert_eq!(
        dispatch(&vec![document("image/png", url)], "c".to_owned()),
        Ok(SendOp::Photo { url: url.to_owned(), caption: "c".to_owned() })
    );
    assert_eq!(
        dispatch(&vec![document("video/mp4", url)], "c".to_owned()),
        Ok(SendOp::Video { url: url.to_owned(), caption: "c".to_owned() })
    );
    assert_eq!(
        dispatch(&vec![document("audio/", url)], "c".to_owned()),
        Ok(SendOp::Audio { url: url.to_owned(), caption: "c".to_owned() })
    );
}

#[test]
fn other_categories_are_refused() {
    let url = "https://example.org/f";
    assert_eq!(
        classify(&vec![document("application/pdf", url)]),
        Err(ValidationError::UnsupportedMediaType { media_type: "application/pdf".to_owned() })
    );
    assert_eq!(
        classify(&vec![document("images/png", url)]),
        Err(ValidationError::UnsupportedMediaType { media_type: "images/png".to_owned() })
    );
    assert_eq!(
        classify(&vec![document("image", url)]),
        Err(ValidationError::InvalidMediaType { media_type: "image".to_owned() })
    );
    assert_eq!(
        dispatch(&vec![document("text/plain", "not a url")], "c".to_owned()),
        Err(Error::Validation(ValidationError::UnsupportedMediaType { media_type: "text/plain".to_owned() }))
    );
}

#[test]
fn several_images_are_an_album() {
    let docs = vec![
        document("image/png", "https://example.org/1.png"),
        document("image/jpeg", "https://example.org/2.jpg"),
        document("image/gif", "https://example.org/3.gif"),
    ];
    assert_eq!(classify(&docs), Ok(Layout::Album));
    assert_eq!(
        dispatch(&docs, "c".to_owned()),
        Ok(SendOp::Album {
            items: vec![
                AlbumItem { url: "https://example.org/1.png".to_owned(), caption: Some("c".to_owned()) },
                AlbumItem { url: "https://example.org/2.jpg".to_owned(), caption: None },
                AlbumItem { url: "https://example.org/3.gif".to_owned(), caption: None },
            ]
        })
    );
}

#[test]
fn an_image_and_a_video_are_not_all_images() {
    let docs = vec![
        document("image/png", "https://example.org/1.png"),
        document("video/mp4", "https://example.org/2.mp4"),
    ];
    assert_eq!(classify(&docs), Err(ValidationError::NotAllImages));
    let p = post("https://example.org/users/a/statuses/1", "<p>hi</p>", docs);
    assert_eq!(plan_post(&p), Err(Error::Validation(ValidationError::NotAllImages)));
}

#[test]
fn a_post_that_is_refused_is_not_sent() {
    let mut item = create(1);
    item.object.attachment = vec![
        document("image/png", "https://example.org/1.png"),
        document("video/mp4", "https://example.org/2.mp4"),
    ];
    let mut queue = DeliveryQueue::new(vec![create(2), item]);
    assert!(queue.next());
    let plan = plan_post(&queue.current().unwrap().object);
    assert_eq!(plan, Err(Error::Validation(ValidationError::NotAllImages)));
    assert_eq!(queue.settle(Outcome::Failed), Step::Abort);
    assert!(!queue.next());
    assert_eq!(queue.finish().len(), 0);
}

#[test]
fn addresses_are_read_by_the_url_crate() {
    assert_eq!(
        dispatch(&vec![document("image/png", "HTTPS://Example.ORG/a b.png")], "c".to_owned()),
        Ok(SendOp::Photo { url: "https://example.org/a%20b.png".to_owned(), caption: "c".to_owned() })
    );
    assert_eq!(
        dispatch(&vec![document("image/png", "/relative.png")], "c".to_owned()),
        Err(Error::Parse(ParseError::InvalidUrl))
    );
    let docs = vec![
        document("image/png", "https://example.org/1.png"),
        document("image/png", "nowhere"),
    ];
    assert_eq!(dispatch(&docs, "c".to_owned()), Err(Error::Parse(ParseError::InvalidUrl)));
}

#[test]
fn the_body_of_a_post_is_rewritten_first() {
    let p = post("https://example.org/users/a/statuses/1", "<p>a<br/>b</p>", vec![]);
    assert_eq!(plan_post(&p), Ok(SendOp::Text { body: "a\nb".to_owned() }));
    let p = post(
        "https://example.org/users/a/statuses/1",
        "<a>no target</a>",
        vec![document("text/plain", "x"), document("text/plain", "y")],
    );
    assert_eq!(plan_post(&p), Err(Error::Parse(ParseError::MissingHref)));
}

#[test]
fn handles_are_sixteen_bytes_big_endian() {
    assert_eq!(
        ser_tg_msg_id(-1001234567890, 42),
        vec![255, 255, 255, 22, 225, 196, 237, 46, 0, 0, 0, 0, 0, 0, 0, 42]
    );
    assert_eq!(ser_tg_msg_id(1, -2), vec![0, 0, 0, 0, 0, 0, 0, 1, 255, 255, 255, 255, 255, 255, 255, 254]);
}

#[test]
fn handles_read_back() {
    for (chat_id, msg_id) in [(0, 0), (1, 1), (-1001234567890, 42), (i64::MAX, i32::MAX), (i64::MIN, i32::MIN), (-1, -1)] {
        assert_eq!(de_tg_msg_id(&ser_tg_msg_id(chat_id, msg_id)), (chat_id, msg_id));
    }
    assert_eq!(de_tg_msg_id(&[0, 0, 0, 0, 0, 0, 1, 0, 0, 0, 0, 1, 0, 0, 0, 7]), (256, 7));
}

#[test]
fn the_mapping_is_written_once() {
    let mut map = IdMap::new();
    assert_eq!(map.get("a"), None);
    map.record("a".to_owned(), 1, 2);
    map.record("b".to_owned(), 3, 4);
    map.record("a".to_owned(), 5, 6);
    assert_eq!(map.len(), 2);
    assert_eq!(map.get("a"), Some((1, 2)));
    assert_eq!(map.get("b"), Some((3, 4)));
    assert_eq!(map.get("c"), None);
    assert_eq!(map.entry(0), &Delivered { id: "a".to_owned(), chat_id: 1, msg_id: 2 });
    assert_eq!(map.entry(1), &Delivered { id: "b".to_owned(), chat_id: 3, msg_id: 4 });
}

#[test]
fn replies_are_looked_up_in_the_round_first() {
    let mut map = IdMap::new();
    map.record(status(1), -100, 77);
    let mut p = post(&status(2), "<p>hi</p>", vec![]);
    assert_eq!(reply_lookup(&p, &map), ReplyLookup::NoReply);
    p.in_reply_to = Some(status(1));
    assert_eq!(reply_lookup(&p, &map), ReplyLookup::Known(77));
    p.in_reply_to = Some(status(0));
    assert_eq!(reply_lookup(&p, &map), ReplyLookup::AskStore(status(0)));
    assert_eq!(map.len(), 1);
}

#[test]
fn replies_are_read_from_the_store() {
    assert_eq!(reply_from_store(None), None);
    let handle = ser_tg_msg_id(-100, 78);
    assert_eq!(reply_from_store(Some(&handle)), Some(78));
}

#[test]
fn posts_are_sent_oldest_first() {
    let mut queue = DeliveryQueue::new(vec![create(5), create(4), create(3)]);
    let mut order = vec![];
    let mut msg_id = 100;
    while queue.next() {
        order.push(current_id(&queue).unwrap());
        msg_id += 1;
        assert_eq!(queue.settle(Outcome::Sent { chat_id: -1, msg_id }), Step::Continue);
    }
    assert_eq!(order, vec![status(3), status(4), status(5)]);
    let map = queue.finish();
    assert_eq!(map.len(), 3);
    assert_eq!(map.get(&status(3)), Some((-1, 101)));
    assert_eq!(map.get(&status(4)), Some((-1, 102)));
    assert_eq!(map.get(&status(5)), Some((-1, 103)));
}

#[test]
fn a_post_that_met_the_rate_limit_comes_again() {
    let mut queue = DeliveryQueue::new(vec![create(5), create(4), create(3)]);
    assert!(queue.next());
    assert_eq!(current_id(&queue), Some(status(3)));
    assert_eq!(queue.settle(Outcome::RetryAfter { secs: 5, nanos: 0 }), Step::Wait { secs: 5, nanos: 0 });
    assert_eq!(queue.current(), None);
    assert_eq!(queue.done().len(), 0);
    assert!(queue.next());
    assert_eq!(current_id(&queue), Some(status(3)));
    assert_eq!(queue.settle(Outcome::RetryAfter { secs: 1, nanos: 500 }), Step::Wait { secs: 1, nanos: 500 });
    assert!(queue.next());
    assert_eq!(current_id(&queue), Some(status(3)));
    assert_eq!(queue.settle(Outcome::Sent { chat_id: -1, msg_id: 9 }), Step::Continue);
    assert!(queue.next());
    assert_eq!(current_id(&queue), Some(status(4)));
    assert_eq!(queue.settle(Outcome::Sent { chat_id: -1, msg_id: 10 }), Step::Continue);
    assert!(queue.next());
    assert_eq!(current_id(&queue), Some(status(5)));
    assert_eq!(queue.settle(Outcome::Sent { chat_id: -1, msg_id: 11 }), Step::Continue);
    assert!(!queue.next());
    let map = queue.finish();
    assert_eq!(map.len(), 3);
    assert_eq!(map.get(&status(3)), Some((-1, 9)));
}

#[test]
fn a_failure_ends_the_delivery_and_keeps_what_was_sent() {
    let mut queue = DeliveryQueue::new(vec![create(5), create(4), create(3)]);
    assert!(queue.next());
    assert_eq!(queue.settle(Outcome::Sent { chat_id: -1, msg_id: 9 }), Step::Continue);
    assert!(queue.next());
    assert_eq!(current_id(&queue), Some(status(4)));
    assert_eq!(queue.settle(Outcome::Failed), Step::Abort);
    assert!(!queue.next());
    assert_eq!(queue.current(), None);
    let map = queue.finish();
    assert_eq!(map.len(), 1);
    assert_eq!(map.get(&status(3)), Some((-1, 9)));
    assert_eq!(map.get(&status(4)), None);
}

#[test]
fn the_queue_without_a_post_in_flight_stays() {
    let mut queue = DeliveryQueue::new(vec![]);
    assert!(!queue.next());
    assert_eq!(queue.settle(Outcome::Sent { chat_id: 1, msg_id: 1 }), Step::Continue);
    assert_eq!(queue.settle(Outcome::Failed), Step::Continue);
    assert_eq!(queue.done().len(), 0);
    let mut queue = DeliveryQueue::new(vec![create(1)]);
    assert!(queue.next());
    assert!(queue.next());
    assert_eq!(current_id(&queue), Some(status(1)));
}

#[test]
fn an_operation_is_put_together_from_the_addresses() {
    let a = |t: &str| Some(t.to_owned());
    let refused = Err(Error::Parse(ParseError::InvalidUrl));
    assert_eq!(compose(Layout::Text, vec![], "b".to_owned()), Ok(SendOp::Text { body: "b".to_owned() }));
    assert_eq!(compose(Layout::Text, vec![None], "b".to_owned()), Ok(SendOp::Text { body: "b".to_owned() }));
    assert_eq!(
        compose(Layout::Single(MediaMedium::Video), vec![a("u")], "b".to_owned()),
        Ok(SendOp::Video { url: "u".to_owned(), caption: "b".to_owned() })
    );
    assert_eq!(compose(Layout::Single(MediaMedium::Video), vec![None], "b".to_owned()), refused);
    assert_eq!(compose(Layout::Single(MediaMedium::Video), vec![], "b".to_owned()), refused);
    assert_eq!(
        compose(Layout::Album, vec![a("u"), a("v")], "b".to_owned()),
        Ok(SendOp::Album {
            items: vec![
                AlbumItem { url: "u".to_owned(), caption: Some("b".to_owned()) },
                AlbumItem { url: "v".to_owned(), caption: None },
            ]
        })
    );
    assert_eq!(compose(Layout::Album, vec![a("u"), None, a("w")], "b".to_owned()), refused);
    assert_eq!(compose(Layout::Album, vec![], "b".to_owned()), Ok(SendOp::Album { items: vec![] }));
}

#[test]
fn the_address_of_each_attachment_is_read() {
    let docs = vec![
        document("image/png", "https://example.org/1.png"),
        document("image/png", "nowhere"),
        document("image/png", "http://EXAMPLE.org"),
    ];
    assert_eq!(
        addresses(&docs),
        vec![Some("https://example.org/1.png".to_owned()), None, Some("http://example.org/".to_owned())]
    );
}
