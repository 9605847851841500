use mastotg::as2::{Context, Page};
use mastotg::error::{ConfigError, Error, ObjectKind, ValidationError};
use mastotg::pro::{Source, UriPro};
use regex::Regex;

fn page(prev: Option<&str>) -> Page {
    Page {
        context: Context::Str("https://www.w3.org/ns/activitystreams".to_owned()),
        id: "https://example.org/users/a/outbox?page=true".to_owned(),
        kind: "OrderedCollectionPage".to_owned(),
        next: None,
        prev: prev.map(|p| p.to_owned()),
        ordered_items: vec![],
    }
}

#[test]
fn the_address_says_how_a_page_is_read() {
    assert_eq!(UriPro::new("https://example.org/outbox".to_owned()).source(), Ok(Source::Http));
    assert_eq!(UriPro::new("http://example.org/outbox".to_owned()).source(), Ok(Source::Http));
    assert_eq!(UriPro::new("stdio://in".to_owned()).source(), Ok(Source::Stdin));
    assert_eq!(UriPro::new("stdio://out".to_owned()).source(), Err(ConfigError::InvalidUri));
    assert_eq!(UriPro::new("stdio://in/".to_owned()).source(), Err(ConfigError::InvalidUri));
    assert_eq!(UriPro::new("ftp://example.org".to_owned()).source(), Err(ConfigError::InvalidUri));
    assert_eq!(UriPro::new("example.org".to_owned()).source(), Err(ConfigError::InvalidUri));
    assert_eq!(UriPro::new("".to_owned()).source(), Err(ConfigError::InvalidUri));
}

#[test]
fn the_source_is_what_the_scheme_pattern_finds() {
    let re = Regex::new(r"^[^:/]+?(?:://)").unwrap();
    for uri in [
        "https://example.org/outbox",
        "http://example.org",
        "http:/example.org",
        "xhttp://example.org",
        "stdio://in",
        "stdio://inn",
        "https//example.org",
        "://x",
        "a:b://c",
        "",
    ] {
        let want = match re.find(uri).map(|m| m.as_str()) {
            Some("http://") | Some("https://") => Ok(Source::Http),
            Some("stdio://") if uri == "stdio://in" => Ok(Source::Stdin),
            _ => Err(ConfigError::InvalidUri),
        };
        assert_eq!(UriPro::new(uri.to_owned()).source(), want, "{}", uri);
    }
}

#[test]
fn an_accepted_page_moves_the_address_on() {
    let mut pro = UriPro::new("https://example.org/outbox?page=true".to_owned());
    assert_eq!(pro.accept(&page(Some("https://example.org/outbox?min_id=5&page=true"))), Ok(()));
    assert_eq!(pro.uri(), "https://example.org/outbox?min_id=5&page=true");
    assert_eq!(pro.accept(&page(None)), Ok(()));
    assert_eq!(pro.uri(), "https://example.org/outbox?min_id=5&page=true");
}

#[test]
fn a_refused_page_leaves_the_address() {
    let mut pro = UriPro::new("https://example.org/outbox?page=true".to_owned());
    let mut bad = page(Some("https://example.org/outbox?min_id=5&page=true"));
    bad.kind = "Collection".to_owned();
    assert_eq!(
        pro.accept(&bad),
        Err(Error::Validation(ValidationError::InvalidType {
            object: ObjectKind::Page,
            found: "Collection".to_owned()
        }))
    );
    assert_eq!(pro.uri(), "https://example.org/outbox?page=true");
}
