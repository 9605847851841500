use mastotg::as2::{CheckContext, CheckType, Context, Create, CtxItem, CtxItemObj, Document, Page, Post, Tag};
use mastotg::error::{ObjectKind, ValidationError};
use serde_json::Value;

const POST_TEXT: &str = r##"{
  "id": "https://social.myl.moe/users/myl/statuses/110896810336575450",
  "type": "Note",
  "summary": null,
  "inReplyTo": null,
  "published": "2023-08-16T08:58:44Z",
  "url": "https://social.myl.moe/@myl/110896810336575450",
  "attributedTo": "https://social.myl.moe/users/myl",
  "sensitive": false,
  "content": "<p>哈哈哈哈，追番的乐趣原来就是这样啊੭ ᐕ)੭<br />虽然还是没有更多的信息，但是实在是名场面啊，很很的破防！<br />mygo 好！</p>",
  "attachment": [],
  "tag": []
}"##;

const POST_LINK: &str = r##"{
  "id": "https://social.myl.moe/users/myl/statuses/110897701160567617",
  "type": "Note",
  "inReplyTo": "https://social.myl.moe/users/myl/statuses/110896810336575450",
  "published": "2023-08-16T12:45:17Z",
  "url": "https://social.myl.moe/@myl/110897701160567617",
  "content": "<p>已经 deploy <a href=\"https://github.com/myl7/mastotg\" target=\"_blank\" rel=\"nofollow noopener noreferrer\"><span class=\"invisible\">https://</span><span class=\"\">github.com/myl7/mastotg</span><span class=\"invisible\"></span></a> 了，应该是 generally available 了<br />功能的话还差个 reply 关系（这条作为样例试试再看怎么处理</p>",
  "attachment": [],
  "tag": []
}"##;

const POST_TAG: &str = r##"{
  "id": "https://social.myl.moe/users/myl/statuses/110896830108585428",
  "type": "Note",
  "inReplyTo": null,
  "published": "2023-08-16T09:03:46Z",
  "url": "https://social.myl.moe/@myl/110896830108585428",
  "sensitive": false,
  "content": "<p>另：信息已经不重要了，具体的前因后果就等 ave mujica 里讲吧，或许可以 mygo 结尾留个引子？<br /><a href=\"https://social.myl.moe/tags/mygo\" class=\"mention hashtag\" rel=\"tag\">#<span>mygo</span></a></p>",
  "attachment": [],
  "tag": [
    {
      "type": "Hashtag",
      "href": "https://social.myl.moe/tags/mygo",
      "name": "#mygo"
    }
  ]
}"##;

const POST_MULTI_GROUPED_IMAGES: &str = r##"{
  "id": "https://social.myl.moe/users/myl/statuses/110901355431163707",
  "type": "Note",
  "inReplyTo": null,
  "published": "2023-08-17T04:14:37Z",
  "url": "https://social.myl.moe/@myl/110901355431163707",
  "sensitive": true,
  "content": "<p>two pictures</p>",
  "attachment": [
    {
      "type": "Document",
      "mediaType": "image/png",
      "url": "https://social.myl.moe/system/media_attachments/files/110/901/352/small/a.png",
      "name": "first picture",
      "blurhash": "U00000",
      "width": 1280,
      "height": 720
    },
    {
      "type": "Document",
      "mediaType": "image/jpeg",
      "url": "https://social.myl.moe/system/media_attachments/files/110/901/353/small/b.jpg",
      "name": null
    }
  ],
  "tag": []
}"##;

fn text(v: &Value, key: &str) -> String {
    v[key].as_str().unwrap().to_owned()
}

fn opt_text(v: &Value, key: &str) -> Option<String> {
    v.get(key).and_then(|t| t.as_str()).map(|t| t.to_owned())
}

fn tag_from(v: &Value) -> Tag {
    Tag { kind: text(v, "type"), name: text(v, "name") }
}

fn document_from(v: &Value) -> Document {
    Document {
        kind: text(v, "type"),
        media_type: text(v, "mediaType"),
        url: text(v, "url"),
        name: opt_text(v, "name"),
    }
}

fn post_from(v: &Value) -> Post {
    Post {
        id: text(v, "id"),
        kind: text(v, "type"),
        in_reply_to: opt_text(v, "inReplyTo"),
        published: text(v, "published"),
        url: text(v, "url"),
        sensitive: v.get("sensitive").and_then(|s| s.as_bool()).unwrap_or(false),
        content: text(v, "content"),
        attachment: v["attachment"].as_array().unwrap().iter().map(document_from).collect(),
        tag: v["tag"].as_array().unwrap().iter().map(tag_from).collect(),
    }
}

fn create_from(v: &Value) -> Create {
    Create { id: text(v, "id"), kind: text(v, "type"), object: post_from(&v["object"]) }
}

fn context_from(v: &Value) -> Context {
    match v {
        Value::String(s) => Context::Str(s.clone()),
        Value::Array(items) => Context::List(
            items
                .iter()
                .map(|i| match i {
                    Value::String(s) => CtxItem::Str(s.clone()),
                    _ => CtxItem::Obj(CtxItemObj {}),
                })
                .collect(),
        ),
        _ => panic!("a context is a text or a list"),
    }
}

fn page_from(v: &Value) -> Page {
    Page {
        context: context_from(&v["@context"]),
        id: text(v, "id"),
        kind: text(v, "type"),
        next: opt_text(v, "next"),
        prev: opt_text(v, "prev"),
        ordered_items: v["orderedItems"].as_array().unwrap().iter().map(create_from).collect(),
    }
}

fn create_json(post: &str) -> String {
    format!(
        r##"{{
  "id": "https://social.myl.moe/users/myl/statuses/110896810336575450/activity",
  "type": "Create",
  "actor": "https://social.myl.moe/users/myl",
  "published": "2023-08-16T08:58:44Z",
  "object": {}
}}"##,
        post
    )
}

fn page_json() -> String {
    format!(
        r##"{{
  "@context": [
    "https://www.w3.org/ns/activitystreams",
    {{ "ostatus": "http://ostatus.org#", "sensitive": "as:sensitive" }}
  ],
  "id": "https://social.myl.moe/users/myl/outbox?page=true",
  "type": "OrderedCollectionPage",
  "next": "https://social.myl.moe/users/myl/outbox?max_id=110896810336575450&page=true",
  "prev": "https://social.myl.moe/users/myl/outbox?min_id=110901355431163707&page=true",
  "partOf": "https://social.myl.moe/users/myl/outbox",
  "orderedItems": [{}, {}]
}}"##,
        create_json(POST_MULTI_GROUPED_IMAGES),
        create_json(POST_TEXT)
    )
}

fn sample_page() -> Page {
    page_from(&serde_json::from_str(&page_json()).unwrap())
}

#[test]
fn test_de_page() {
    let page = sample_page();
    assert_eq!(page.kind, "OrderedCollectionPage");
    assert_eq!(page.ordered_items.len(), 2);
    assert!(page.prev.is_some());
    assert!(matches!(&page.context, Context::List(items) if items.len() == 2));
    assert_eq!(page.validate(), Ok(()));
}

#[test]
fn test_de_create() {
    let v: Value = serde_json::from_str(&create_json(POST_TEXT)).unwrap();
    let create = create_from(&v);
    assert_eq!(create.kind, "Create");
    assert_eq!(create.object.kind, "Note");
    assert_eq!(create.check_type(), Ok(()));
    assert_eq!(create.validate(), Ok(()));
}

#[test]
fn test_de_post() {
    let post = post_from(&serde_json::from_str(POST_TEXT).unwrap());
    assert_eq!(post.id, "https://social.myl.moe/users/myl/statuses/110896810336575450");
    assert_eq!(post.in_reply_to, None);
    assert!(!post.sensitive);
    assert!(post.attachment.is_empty());
    assert_eq!(post.validate(), Ok(()));
}

#[test]
fn test_de_post_link() {
    let post = post_from(&serde_json::from_str(POST_LINK).unwrap());
    assert_eq!(
        post.in_reply_to.as_deref(),
        Some("https://social.myl.moe/users/myl/statuses/110896810336575450")
    );
    assert!(!post.sensitive);
    assert_eq!(post.validate(), Ok(()));
}

#[test]
fn test_de_tag() {
    let post = post_from(&serde_json::from_str(POST_TAG).unwrap());
    assert_eq!(post.tag.len(), 1);
    assert_eq!(post.tag[0].name, "#mygo");
    assert_eq!(post.tag[0].check_type(), Ok(()));
    assert_eq!(post.validate(), Ok(()));
}

#[test]
fn test_de_multi_grouped_images() {
    let post = post_from(&serde_json::from_str(POST_MULTI_GROUPED_IMAGES).unwrap());
    assert!(post.sensitive);
    assert_eq!(post.attachment.len(), 2);
    assert_eq!(post.attachment[0].media_type, "image/png");
    assert_eq!(post.attachment[0].name.as_deref(), Some("first picture"));
    assert_eq!(post.attachment[1].name, None);
    assert_eq!(post.attachment[1].check_type(), Ok(()));
    assert_eq!(post.validate(), Ok(()));
}

#[test]
fn context_as_bare_namespace_is_accepted() {
    let mut page = sample_page();
    page.context = Context::Str("https://www.w3.org/ns/activitystreams".to_owned());
    assert_eq!(page.check_context(), Ok(()));
    assert_eq!(page.validate(), Ok(()));
}

#[test]
fn context_faults_are_told_apart() {
    let mut page = sample_page();
    page.context = Context::Str("https://example.org/ns".to_owned());
    assert_eq!(page.validate(), Err(ValidationError::ContextNotAs2));
    page.context = Context::List(vec![]);
    assert_eq!(page.validate(), Err(ValidationError::ContextTooShort));
    page.context = Context::List(vec![CtxItem::Str("https://www.w3.org/ns/activitystreams".to_owned())]);
    assert_eq!(page.validate(), Err(ValidationError::ContextTooShort));
    page.context = Context::List(vec![
        CtxItem::Obj(CtxItemObj {}),
        CtxItem::Str("https://www.w3.org/ns/activitystreams".to_owned()),
    ]);
    assert_eq!(page.validate(), Err(ValidationError::ContextFirstIsObject));
    page.context = Context::List(vec![
        CtxItem::Str("https://example.org/ns".to_owned()),
        CtxItem::Str("https://www.w3.org/ns/activitystreams".to_owned()),
    ]);
    assert_eq!(page.validate(), Err(ValidationError::ContextNotAs2));
}

fn invalid(object: ObjectKind, found: &str) -> Result<(), ValidationError> {
    Err(ValidationError::InvalidType { object, found: found.to_owned() })
}

#[test]
fn a_deviation_in_any_one_type_is_found() {
    let mut page = sample_page();
    page.kind = "OrderedCollection".to_owned();
    assert_eq!(page.validate(), invalid(ObjectKind::Page, "OrderedCollection"));

    let mut page = sample_page();
    page.ordered_items[1].kind = "Announce".to_owned();
    assert_eq!(page.validate(), invalid(ObjectKind::Activity, "Announce"));

    let mut page = sample_page();
    page.ordered_items[1].object.kind = "Article".to_owned();
    assert_eq!(page.validate(), invalid(ObjectKind::Post, "Article"));

    let mut page = sample_page();
    page.ordered_items[0].object.attachment[1].kind = "Image".to_owned();
    assert_eq!(page.validate(), invalid(ObjectKind::Attachment, "Image"));

    let mut page = sample_page();
    page.ordered_items[0].object.tag.push(Tag { kind: "Mention".to_owned(), name: "@x".to_owned() });
    assert_eq!(page.validate(), invalid(ObjectKind::Hashtag, "Mention"));
}

#[test]
fn the_first_deviation_is_reported() {
    let mut page = sample_page();
    page.ordered_items[0].object.attachment[0].kind = "Image".to_owned();
    page.ordered_items[0].object.tag.push(Tag { kind: "Mention".to_owned(), name: "@x".to_owned() });
    page.ordered_items[1].kind = "Announce".to_owned();
    assert_eq!(page.validate(), invalid(ObjectKind::Attachment, "Image"));
    page.kind = "Page".to_owned();
    assert_eq!(page.validate(), invalid(ObjectKind::Page, "Page"));
}

#[test]
fn a_page_without_posts_is_accepted() {
    let mut page = sample_page();
    page.ordered_items.clear();
    assert_eq!(page.validate(), Ok(()));
}
