use std::cell::RefCell;

use mastotg::as2::{Context, Create, Page, Post};
use mastotg::cons::{plan_post, reply_lookup, Con, DeliveryQueue, IdMap, Outcome, ReplyLookup, SendOp, Step};
use mastotg::db::State;
use mastotg::error::Error;
use mastotg::pro::{Pro, Source, UriPro};
use mastotg::round::{feed_uri, PageStep, Round};
use mastotg::utils::int_id;

fn status(n: i64) -> String {
    format!("https://example.org/users/a/statuses/{}", n)
}

fn create(n: i64, in_reply_to: Option<i64>) -> Create {
    Create {
        id: format!("{}/activity", status(n)),
        kind: "Create".to_owned(),
        object: Post {
            id: status(n),
            kind: "Note".to_owned(),
            in_reply_to: in_reply_to.map(status),
            published: "2023-08-16T08:58:44Z".to_owned(),
            url: format!("https://example.org/@a/{}", n),
            sensitive: false,
            content: format!("<p>post {}</p>", n),
            attachment: vec![],
            tag: vec![],
        },
    }
}

/// A feed that holds posts and answers a request with those above the
/// `min_id` of its query, newest first.
struct Feed {
    posts: Vec<(i64, Option<i64>)>,
    asked: Vec<String>,
    pro: UriPro,
}

impl Feed {
    fn new(posts: Vec<(i64, Option<i64>)>, uri: String) -> Self {
        Feed { posts, asked: vec![], pro: UriPro::new(uri) }
    }
}

impl Pro for Feed {
    fn fetch(&mut self) -> Result<Page, Error> {
        assert_eq!(self.pro.source(), Ok(Source::Http));
        let uri = self.pro.uri().to_owned();
        self.asked.push(uri.clone());
        let query = uri.split('?').nth(1).unwrap_or("");
        let min_id: i64 = query
            .split('&')
            .find_map(|pair| pair.strip_prefix("min_id="))
            .map(|v| v.parse().unwrap())
            .unwrap_or(-1);
        let mut ids: Vec<&(i64, Option<i64>)> = self.posts.iter().filter(|p| p.0 > min_id).collect();
        ids.sort();
        ids.reverse();
        let page = Page {
            context: Context::Str("https://www.w3.org/ns/activitystreams".to_owned()),
            id: uri,
            kind: "OrderedCollectionPage".to_owned(),
            next: None,
            prev: ids.first().map(|p| format!("https://example.org/outbox?min_id={}&page=true", p.0)),
            ordered_items: ids.iter().map(|p| create(p.0, p.1)).collect(),
        };
        self.pro.accept(&page)?;
        Ok(page)
    }
}

/// A channel that takes texts, and that is flooded at the attempts whose
/// numbers it is given.
struct Channel {
    flooded_at: Vec<usize>,
    attempts: RefCell<Vec<String>>,
    sent: RefCell<Vec<(String, String, Option<i32>)>>,
    slept: RefCell<Vec<(u64, u32)>>,
    stored: IdMap,
}

impl Channel {
    fn new(flooded_at: Vec<usize>, stored: IdMap) -> Self {
        Channel {
            flooded_at,
            attempts: RefCell::new(vec![]),
            sent: RefCell::new(vec![]),
            slept: RefCell::new(vec![]),
            stored,
        }
    }
}

impl Con for Channel {
    fn send(&self, items: Vec<Create>) -> (IdMap, Result<(), Error>) {
        let mut queue = DeliveryQueue::new(items);
        while queue.next() {
            let item = queue.current().unwrap();
            let id = item.object.id.clone();
            self.attempts.borrow_mut().push(id.clone());
            let outcome = match plan_post(&item.object) {
                Err(e) => {
                    queue.settle(Outcome::Failed);
                    return (queue.finish(), Err(e));
                }
                Ok(SendOp::Text { body }) => {
                    if self.flooded_at.contains(&self.attempts.borrow().len()) {
                        Outcome::RetryAfter { secs: 5, nanos: 0 }
                    } else {
                        let reply = match reply_lookup(&item.object, queue.done()) {
                            ReplyLookup::NoReply => None,
                            ReplyLookup::Known(msg_id) => Some(msg_id),
                            ReplyLookup::AskStore(id) => self.stored.get(&id).map(|ids| ids.1),
                        };
                        let msg_id = 100 + int_id(&id).unwrap() as i32;
                        self.sent.borrow_mut().push((id, body, reply));
                        Outcome::Sent { chat_id: -100, msg_id }
                    }
                }
                Ok(_) => Outcome::Failed,
            };
            match queue.settle(outcome) {
                Step::Continue => {}
                Step::Wait { secs, nanos } => self.slept.borrow_mut().push((secs, nanos)),
                Step::Abort => return (queue.finish(), Err(Error::Delivery("refused".to_owned()))),
            }
        }
        (queue.finish(), Ok(()))
    }
}

fn run_round(state: State, feed: &mut Feed, channel: &Channel) -> (State, IdMap) {
    let mut round = Round::begin(&state, true, false);
    let mut recorded = IdMap::new();
    while !round.is_over() {
        let page = feed.fetch().unwrap();
        match round.on_page(&page).unwrap() {
            PageStep::Stop => break,
            PageStep::Deliver => {
                let (map, ended) = channel.send_page(page);
                for i in 0..map.len() {
                    let sent = map.entry(i);
                    recorded.record(sent.id.clone(), sent.chat_id, sent.msg_id);
                }
                ended.unwrap();
                if !round.delivered() {
                    break;
                }
            }
        }
    }
    (round.state(), recorded)
}

fn first_uri(state: &State) -> String {
    feed_uri(state, Some("https://example.org/outbox"), None).unwrap()
}

#[test]
fn a_page_is_sent_oldest_first_and_the_cursor_ends_at_its_newest_post() {
    let state = State::new(0);
    let mut feed = Feed::new(vec![(5, Some(4)), (4, None), (3, Some(2))], first_uri(&state));
    let channel = Channel::new(vec![], IdMap::new());
    let (next, recorded) = run_round(state, &mut feed, &channel);
    assert_eq!(next, State::new(5));
    assert_eq!(*channel.attempts.borrow(), vec![status(3), status(4), status(5)]);
    assert_eq!(
        *channel.sent.borrow(),
        vec![
            (status(3), "post 3".to_owned(), None),
            (status(4), "post 4".to_owned(), None),
            (status(5), "post 5".to_owned(), Some(104)),
        ]
    );
    assert_eq!(recorded.len(), 3);
    assert_eq!(recorded.get(&status(5)), Some((-100, 105)));
}

#[test]
fn a_flooded_channel_is_tried_again_after_the_wait() {
    let state = State::new(0);
    let mut feed = Feed::new(vec![(5, None), (4, None), (3, None)], first_uri(&state));
    let channel = Channel::new(vec![2, 3], IdMap::new());
    let (next, recorded) = run_round(state, &mut feed, &channel);
    assert_eq!(next, State::new(5));
    assert_eq!(
        *channel.attempts.borrow(),
        vec![status(3), status(4), status(4), status(4), status(5)]
    );
    assert_eq!(*channel.slept.borrow(), vec![(5, 0), (5, 0)]);
    let sent: Vec<String> = channel.sent.borrow().iter().map(|s| s.0.clone()).collect();
    assert_eq!(sent, vec![status(3), status(4), status(5)]);
    assert_eq!(recorded.len(), 3);
    assert_eq!(recorded.get(&status(4)), Some((-100, 104)));
}

#[test]
fn a_second_round_asks_above_the_cursor_and_sends_nothing_again() {
    let state = State::new(0);
    let posts = vec![(5, None), (4, None), (3, None)];
    let mut feed = Feed::new(posts.clone(), first_uri(&state));
    let channel = Channel::new(vec![], IdMap::new());
    let (cursor, stored) = run_round(state, &mut feed, &channel);
    assert_eq!(cursor, State::new(5));

    let mut feed = Feed::new(posts, first_uri(&cursor));
    let again = Channel::new(vec![], stored);
    let (next, recorded) = run_round(cursor, &mut feed, &again);
    assert_eq!(feed.asked, vec!["https://example.org/outbox?min_id=5&page=true".to_owned()]);
    assert_eq!(next, State::new(5));
    assert!(again.attempts.borrow().is_empty());
    assert_eq!(recorded.len(), 0);
}

#[test]
fn a_later_round_answers_a_post_of_an_earlier_one() {
    let state = State::new(0);
    let mut feed = Feed::new(vec![(3, None)], first_uri(&state));
    let channel = Channel::new(vec![], IdMap::new());
    let (cursor, stored) = run_round(state, &mut feed, &channel);
    assert_eq!(stored.get(&status(3)), Some((-100, 103)));

    let mut feed = Feed::new(vec![(3, None), (6, Some(3)), (7, Some(1))], first_uri(&cursor));
    let later = Channel::new(vec![], stored);
    let (next, _) = run_round(cursor, &mut feed, &later);
    assert_eq!(next, State::new(7));
    assert_eq!(
        *later.sent.borrow(),
        vec![(status(6), "post 6".to_owned(), Some(103)), (status(7), "post 7".to_owned(), None)]
    );
}

#[test]
fn a_first_round_sends_nothing() {
    let state = State::default();
    let mut feed = Feed::new(vec![(5, None), (4, None)], first_uri(&state));
    let channel = Channel::new(vec![], IdMap::new());
    let (next, recorded) = run_round(state, &mut feed, &channel);
    assert_eq!(feed.asked, vec!["https://example.org/outbox?page=true".to_owned()]);
    assert_eq!(next, State::new(5));
    assert!(channel.attempts.borrow().is_empty());
    assert_eq!(recorded.len(), 0);
}
