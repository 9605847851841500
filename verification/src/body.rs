//! Rewriting the body of a post for the destination.
//!
//! A body is a small subset of HTML: paragraphs, line breaks, links and
//! hashtag links. The destination takes plain text with `<a href="..">`
//! anchors. The body is cut into markup constructs by `quick_xml`, each
//! construct is decoded into a [`Token`], and a two-flag scanner turns the
//! tokens into the text that is sent.

use vstd::prelude::*;
use quick_xml::events::attributes::Attributes;
use quick_xml::events::Event;
use quick_xml::reader::Reader;
use crate::error::ParseError;
use crate::text::{contains, has_part, opt_view, same};

verus! {

/// `quick_xml::reader::Reader`: a cursor over the constructs of a text.
/// Nothing of its inside is seen here.
#[verifier::external_type_specification]
#[verifier::external_body]
#[verifier::reject_recursive_types(R)]
pub struct ExReader<R>(Reader<R>);

/// One construct of a body as the reader hands it out, names and text still
/// as they were written.
#[derive(Debug, Clone, PartialEq, Eq)]
pub enum Markup {
    /// `<name attrs>`
    Start { name: String, attrs: String },
    /// `</name>`
    End { name: String },
    /// `<name attrs/>`
    Empty { name: String },
    /// Text between two tags, escapes not yet resolved.
    Text { raw: String },
    /// A comment, a declaration or another construct that carries no content.
    Other,
    /// What the reader could not read; nothing follows it.
    Malformed,
}

/// A construct with its texts taken by their characters.
pub enum MarkupView {
    Start { name: Seq<char>, attrs: Seq<char> },
    End { name: Seq<char> },
    Empty { name: Seq<char> },
    Text { raw: Seq<char> },
    Other,
    Malformed,
}

impl View for Markup {
    type V = MarkupView;

    open spec fn view(&self) -> MarkupView {
        match self {
            Markup::Start { name, attrs } => MarkupView::Start { name: name@, attrs: attrs@ },
            Markup::End { name } => MarkupView::End { name: name@ },
            Markup::Empty { name } => MarkupView::Empty { name: name@ },
            Markup::Text { raw } => MarkupView::Text { raw: raw@ },
            Markup::Other => MarkupView::Other,
            Markup::Malformed => MarkupView::Malformed,
        }
    }
}

/// One construct of a body, decoded: what the scanner decides on.
#[derive(Debug, Clone, PartialEq, Eq)]
pub enum Token {
    /// The start of an anchor. `hashtag` says whether its class names a
    /// hashtag, `href` is its target with escapes resolved.
    Anchor { hashtag: bool, href: Option<String> },
    /// The end of an anchor.
    AnchorEnd,
    /// A line break.
    Break,
    /// Text with escapes resolved, or `None` where an escape in it is
    /// unknown or unfinished.
    Text { text: Option<String> },
    /// A construct that leaves no trace in the output.
    Skip,
    /// A construct that is not well-formed.
    Broken,
}

/// A token with its texts taken by their characters.
pub enum TokenView {
    Anchor { hashtag: bool, href: Option<Seq<char>> },
    AnchorEnd,
    Break,
    Text { text: Option<Seq<char>> },
    Skip,
    Broken,
}

impl View for Token {
    type V = TokenView;

    open spec fn view(&self) -> TokenView {
        match self {
            Token::Anchor { hashtag, href } => TokenView::Anchor {
                hashtag: *hashtag,
                href: opt_view(*href),
            },
            Token::AnchorEnd => TokenView::AnchorEnd,
            Token::Break => TokenView::Break,
            Token::Text { text } => TokenView::Text { text: opt_view(*text) },
            Token::Skip => TokenView::Skip,
            Token::Broken => TokenView::Broken,
        }
    }
}

/// The constructs that `quick_xml` reads from a body, in order. Where the
/// body is not well-formed the sequence ends with `Malformed`.
pub uninterp spec fn markup_events(body: Seq<char>) -> Seq<MarkupView>;

/// The constructs that a reader has yet to hand out.
pub uninterp spec fn pending(reader: Reader<&[u8]>) -> Seq<MarkupView>;

/// The attributes that `quick_xml` reads from the text that follows the name
/// in a start tag, in HTML mode: key and raw value of each, `None` for one
/// that is malformed or repeats a key.
pub uninterp spec fn attribute_list(attrs: Seq<char>) -> Seq<Option<(Seq<char>, Seq<char>)>>;

/// `raw` with its character and entity references resolved by `quick_xml`,
/// `None` where one of them is unknown or unfinished.
pub uninterp spec fn unescaped(raw: Seq<char>) -> Option<Seq<char>>;

/// An attribute, or the lack of one, with its texts taken by their
/// characters.
pub open spec fn attr_view(attr: Option<(String, String)>) -> Option<(Seq<char>, Seq<char>)> {
    match attr {
        Some((key, value)) => Some((key@, value@)),
        None => None,
    }
}

/// Whether `m` is what a reader hands out that has `before` yet to hand
/// out, and `after` is what it has yet to hand out then: the first
/// construct and the rest, or nothing where nothing is left.
pub open spec fn hands_out(before: Seq<MarkupView>, m: Option<Markup>, after: Seq<MarkupView>) -> bool {
    if before.len() == 0 {
        m is None && after.len() == 0
    } else {
        m is Some && m->0@ == before[0] && after == before.drop_first()
    }
}

/// `quick_xml::reader::Reader::from_str`: a reader over `body` with the
/// crate's default settings. Its constructs are those of the body.
#[verifier::external_body]
fn open_reader<'a>(body: &'a str) -> (reader: Reader<&'a [u8]>)
    ensures
        pending(reader) == markup_events(body@),
{
    Reader::from_str(body)
}

/// `quick_xml::reader::Reader::read_event` on a reader over a string: hands
/// out the next construct, if there is one, and moves past it. An error of
/// the reader comes out as `Markup::Malformed`, the end of the input as
/// `None`. Names, attribute text and text content are copied as written.
#[verifier::external_body]
fn next_markup(reader: &mut Reader<&[u8]>) -> (m: Option<Markup>)
    ensures
        hands_out(pending(*old(reader)), m, pending(*final(reader))),
{
    Some(match reader.read_event() {
        Ok(Event::Eof) => return None,
        Ok(Event::Start(e)) => Markup::Start {
            name: String::from_utf8_lossy(e.name().as_ref()).into(),
            attrs: String::from_utf8_lossy(e.attributes_raw()).into(),
        },
        Ok(Event::End(e)) => Markup::End { name: String::from_utf8_lossy(&e).into() },
        Ok(Event::Empty(e)) => Markup::Empty { name: String::from_utf8_lossy(e.name().as_ref()).into() },
        Ok(Event::Text(e)) => Markup::Text { raw: String::from_utf8_lossy(&e).into() },
        Ok(_) => Markup::Other,
        Err(_) => Markup::Malformed,
    })
}

/// `quick_xml::events::attributes::Attributes::html` and its iterator: the
/// attributes written in `attrs`, key and raw value of each in order, `None`
/// in place of one that the iterator reports as an error.
#[verifier::external_body]
fn html_attributes(attrs: &str) -> (list: Vec<Option<(String, String)>>)
    ensures
        list@.len() == attribute_list(attrs@).len(),
        forall|i: int|
            0 <= i < list@.len() ==> attr_view(#[trigger] list@[i]) == attribute_list(attrs@)[i],
{
    Attributes::html(attrs, 0).map(|item| item.ok().map(|a| (
        String::from_utf8_lossy(a.key.as_ref()).into_owned(),
        String::from_utf8_lossy(&a.value).into_owned(),
    ))).collect()
}

/// `quick_xml::escape::unescape`: `raw` with `&lt;`, `&gt;`, `&amp;`,
/// `&apos;`, `&quot;` and numeric character references resolved, or `None`
/// where it reports an error.
#[verifier::external_body]
fn unescape(raw: &str) -> (text: Option<String>)
    ensures
        opt_view(text) == unescaped(raw@),
{
    quick_xml::escape::unescape(raw).ok().map(|t| t.into_owned())
}

/// What the attributes of an anchor say of it, read in order from the state
/// `(hashtag, href)`: each `class` decides anew whether the anchor is a
/// hashtag, each `href` replaces the target. `None` where an attribute is
/// malformed or the value of a `class` or `href` cannot be unescaped.
pub open spec fn anchor_of(
    attrs: Seq<Option<(Seq<char>, Seq<char>)>>,
    hashtag: bool,
    href: Option<Seq<char>>,
) -> Option<(bool, Option<Seq<char>>)>
    decreases attrs.len(),
{
    if attrs.len() == 0 {
        Some((hashtag, href))
    } else {
        match attrs[0] {
            None => None,
            Some((key, value)) => if key == "class"@ {
                match unescaped(value) {
                    None => None,
                    Some(class) => anchor_of(attrs.drop_first(), has_part(class, "hashtag"@), href),
                }
            } else if key == "href"@ {
                match unescaped(value) {
                    None => None,
                    Some(target) => anchor_of(attrs.drop_first(), hashtag, Some(target)),
                }
            } else {
                anchor_of(attrs.drop_first(), hashtag, href)
            },
        }
    }
}

/// The token that a construct stands for.
pub open spec fn decoded(markup: MarkupView) -> TokenView {
    match markup {
        MarkupView::Start { name, attrs } => if name == "a"@ {
            match anchor_of(attribute_list(attrs), false, None) {
                Some((hashtag, href)) => TokenView::Anchor { hashtag, href },
                None => TokenView::Broken,
            }
        } else {
            TokenView::Skip
        },
        MarkupView::End { name } => if name == "a"@ {
            TokenView::AnchorEnd
        } else {
            TokenView::Skip
        },
        MarkupView::Empty { name } => if name == "br"@ {
            TokenView::Break
        } else {
            TokenView::Skip
        },
        MarkupView::Text { raw } => TokenView::Text { text: unescaped(raw) },
        MarkupView::Other => TokenView::Skip,
        MarkupView::Malformed => TokenView::Broken,
    }
}

/// The tokens of a body, in order.
pub open spec fn body_tokens(body: Seq<char>) -> Seq<TokenView> {
    markup_events(body).map_values(|m: MarkupView| decoded(m))
}

/// Tokens with their texts taken by their characters.
pub open spec fn token_views(tokens: Seq<Token>) -> Seq<TokenView> {
    tokens.map_values(|t: Token| t@)
}

/// The token of an anchor that starts with the attribute text `attrs`.
fn decode_anchor(attrs: &str) -> (token: Token)
    ensures
        token@ == decoded(MarkupView::Start { name: "a"@, attrs: attrs@ }),
{
    let list = html_attributes(attrs);
    let ghost all = attribute_list(attrs@);
    let mut hashtag = false;
    let mut href: Option<String> = None;
    let mut i: usize = 0;
    assert(all.skip(0) =~= all);
    while i < list.len()
        invariant
            0 <= i <= list.len(),
            all == attribute_list(attrs@),
            list@.len() == all.len(),
            forall|k: int| 0 <= k < list@.len() ==> attr_view(#[trigger] list@[k]) == all[k],
            anchor_of(all, false, None) == anchor_of(all.skip(i as int), hashtag, opt_view(href)),
        decreases list.len() - i,
    {
        proof {
            assert(all.skip(i as int)[0] == all[i as int]);
            assert(all.skip(i as int).drop_first() == all.skip(i as int + 1));
            assert(attr_view(list@[i as int]) == all[i as int]);
        }
        match &list[i] {
            None => {
                return Token::Broken;
            },
            Some((key, value)) => {
                if same(key.as_str(), "class") {
                    match unescape(value.as_str()) {
                        None => {
                            return Token::Broken;
                        },
                        Some(class) => {
                            hashtag = contains(class.as_str(), "hashtag");
                        },
                    }
                } else if same(key.as_str(), "href") {
                    match unescape(value.as_str()) {
                        None => {
                            return Token::Broken;
                        },
                        Some(target) => {
                            href = Some(target);
                        },
                    }
                }
            },
        }
        i = i + 1;
    }
    assert(all.skip(i as int).len() == 0);
    Token::Anchor { hashtag, href }
}

/// The token that `markup` stands for.
pub fn decode(markup: &Markup) -> (token: Token)
    ensures
        token@ == decoded(markup@),
{
    match markup {
        Markup::Start { name, attrs } => {
            if same(name.as_str(), "a") {
                decode_anchor(attrs.as_str())
            } else {
                Token::Skip
            }
        },
        Markup::End { name } => {
            if same(name.as_str(), "a") {
                Token::AnchorEnd
            } else {
                Token::Skip
            }
        },
        Markup::Empty { name } => {
            if same(name.as_str(), "br") {
                Token::Break
            } else {
                Token::Skip
            }
        },
        Markup::Text { raw } => Token::Text { text: unescape(raw.as_str()) },
        Markup::Other => Token::Skip,
        Markup::Malformed => Token::Broken,
    }
}

/// The tokens of `body`, in order.
pub fn tokenize(body: &str) -> (tokens: Vec<Token>)
    ensures
        token_views(tokens@) == body_tokens(body@),
{
    let mut reader = open_reader(body);
    let mut tokens: Vec<Token> = Vec::new();
    let ghost all = markup_events(body@);
    proof {
        assert(token_views(tokens@) =~= body_tokens(body@).take(0));
    }
    loop
        invariant
            all == markup_events(body@),
            tokens@.len() + pending(reader).len() == all.len(),
            pending(reader) == all.skip(tokens@.len() as int),
            token_views(tokens@) == body_tokens(body@).take(tokens@.len() as int),
        ensures
            pending(reader).len() == 0,
        decreases pending(reader).len(),
    {
        let ghost before = pending(reader);
        let ghost done = tokens@;
        match next_markup(&mut reader) {
            None => {
                break ;
            },
            Some(markup) => {
                let token = decode(&markup);
                tokens.push(token);
                proof {
                    let n = done.len() as int;
                    assert(before[0] == all[n]);
                    assert(before.drop_first() =~= all.skip(n + 1));
                    assert(token_views(tokens@) =~= body_tokens(body@).take(n + 1));
                }
            },
        }
    }
    proof {
        assert(body_tokens(body@).take(tokens@.len() as int) =~= body_tokens(body@));
    }
    tokens
}

/// What the scanner has written and where it stands.
pub struct Scan {
    /// The output so far.
    pub out: Seq<char>,
    /// Inside a plain link: its anchor was written, its text is dropped.
    pub in_link: bool,
    /// Inside a hashtag link: its text is dropped.
    pub in_hashtag: bool,
}

/// The scanner before the first token.
pub open spec fn scan_start() -> Scan {
    Scan { out: Seq::empty(), in_link: false, in_hashtag: false }
}

/// What opens a plain link to `href` in the output: the anchor, and the
/// target once more as the text that is shown.
pub open spec fn link_open(href: Seq<char>) -> Seq<char> {
    "<a href=\""@ + href + "\">"@ + href
}

/// What closes a plain link in the output.
pub open spec fn link_close() -> Seq<char> {
    "</a>"@
}

/// The scanner after one more token, or the reason why the token is refused.
pub open spec fn step(scan: Scan, token: TokenView) -> Result<Scan, ParseError> {
    match token {
        TokenView::Anchor { hashtag, href } => if hashtag && !scan.in_hashtag {
            Ok(Scan { in_hashtag: true, ..scan })
        } else if !scan.in_link {
            match href {
                None => Err(ParseError::MissingHref),
                Some(target) => Ok(
                    Scan { out: scan.out + link_open(target), in_link: true, ..scan },
                ),
            }
        } else {
            Err(ParseError::UnknownAnchor)
        },
        TokenView::AnchorEnd => if scan.in_hashtag {
            Ok(Scan { in_hashtag: false, ..scan })
        } else if scan.in_link {
            Ok(Scan { out: scan.out + link_close(), in_link: false, ..scan })
        } else {
            Err(ParseError::UnknownAnchor)
        },
        TokenView::Break => Ok(Scan { out: scan.out.push('\n'), ..scan }),
        TokenView::Text { text } => if scan.in_link || scan.in_hashtag {
            Ok(scan)
        } else {
            match text {
                None => Err(ParseError::Malformed),
                Some(t) => Ok(Scan { out: scan.out + t, ..scan }),
            }
        },
        TokenView::Skip => Ok(scan),
        TokenView::Broken => Err(ParseError::Malformed),
    }
}

/// The scanner after `tokens`, taken in order from `scan`, or the reason
/// why the first token that is refused is refused.
pub open spec fn scan_all(scan: Scan, tokens: Seq<TokenView>) -> Result<Scan, ParseError>
    decreases tokens.len(),
{
    if tokens.len() == 0 {
        Ok(scan)
    } else {
        match step(scan, tokens[0]) {
            Ok(next) => scan_all(next, tokens.drop_first()),
            Err(e) => Err(e),
        }
    }
}

/// What a scanner that has seen all tokens hands out: its output, unless a
/// plain link is still open.
pub open spec fn finished(scan: Scan) -> Result<Seq<char>, ParseError> {
    if scan.in_link {
        Err(ParseError::UnclosedAnchor)
    } else {
        Ok(scan.out)
    }
}

/// The text that a sequence of tokens is rewritten to.
pub open spec fn cleaned(tokens: Seq<TokenView>) -> Result<Seq<char>, ParseError> {
    match scan_all(scan_start(), tokens) {
        Ok(scan) => finished(scan),
        Err(e) => Err(e),
    }
}

/// One stretch of the output: text that was kept, or a plain link from its
/// opening to its closing, with what stands between the two.
pub enum Stretch {
    Text(Seq<char>),
    Link { href: Seq<char>, inner: Seq<char> },
}

/// A stretch as it stands in the output.
pub open spec fn stretch_text(stretch: Stretch) -> Seq<char> {
    match stretch {
        Stretch::Text(text) => text,
        Stretch::Link { href, inner } => link_open(href) + inner + link_close(),
    }
}

/// Stretches one after the other, as they stand in the output.
pub open spec fn rendered(stretches: Seq<Stretch>) -> Seq<char>
    decreases stretches.len(),
{
    if stretches.len() == 0 {
        Seq::empty()
    } else {
        rendered(stretches.drop_last()) + stretch_text(stretches.last())
    }
}

/// The output as it is built up: the stretches that are complete, and the
/// plain link that is open, with its target and what stands in it so far.
pub struct Shape {
    pub done: Seq<Stretch>,
    pub open: Option<(Seq<char>, Seq<char>)>,
}

/// A shape as it stands in the output.
pub open spec fn shape_text(shape: Shape) -> Seq<char> {
    rendered(shape.done) + match shape.open {
        Some((href, inner)) => link_open(href) + inner,
        None => Seq::empty(),
    }
}

/// Whether `shape` is the shape of what `scan` has written.
pub open spec fn shapes(shape: Shape, scan: Scan) -> bool {
    shape_text(shape) == scan.out && (shape.open is Some <==> scan.in_link)
}

/// The shape after a token that the scanner took from the state `scan`.
pub open spec fn shape_step(shape: Shape, scan: Scan, token: TokenView) -> Shape {
    match token {
        TokenView::Anchor { hashtag, href } => if hashtag && !scan.in_hashtag {
            shape
        } else {
            Shape { open: Some((href.unwrap(), Seq::empty())), ..shape }
        },
        TokenView::AnchorEnd => if scan.in_hashtag {
            shape
        } else {
            Shape {
                done: shape.done.push(
                    Stretch::Link { href: shape.open.unwrap().0, inner: shape.open.unwrap().1 },
                ),
                open: None,
            }
        },
        TokenView::Break => match shape.open {
            Some((href, inner)) => Shape { open: Some((href, inner.push('\n'))), ..shape },
            None => Shape { done: shape.done.push(Stretch::Text(seq!['\n'])), ..shape },
        },
        TokenView::Text { text } => if scan.in_link || scan.in_hashtag {
            shape
        } else {
            Shape { done: shape.done.push(Stretch::Text(text.unwrap())), ..shape }
        },
        _ => shape,
    }
}

/// The shape after `tokens`, taken in order from the state `scan`.
pub open spec fn shape_all(shape: Shape, scan: Scan, tokens: Seq<TokenView>) -> Shape
    decreases tokens.len(),
{
    if tokens.len() == 0 {
        shape
    } else {
        match step(scan, tokens[0]) {
            Ok(next) => shape_all(shape_step(shape, scan, tokens[0]), next, tokens.drop_first()),
            Err(_) => shape,
        }
    }
}

/// The stretches that the output for `tokens` is made of.
pub open spec fn stretches_of(tokens: Seq<TokenView>) -> Seq<Stretch> {
    shape_all(Shape { done: Seq::empty(), open: None }, scan_start(), tokens).done
}

/// A token that the scanner takes keeps the shape in step with the output.
pub proof fn lemma_shape_step(shape: Shape, scan: Scan, token: TokenView)
    requires
        shapes(shape, scan),
        step(scan, token) is Ok,
    ensures
        shapes(shape_step(shape, scan, token), step(scan, token)->Ok_0),
{
    let next = step(scan, token)->Ok_0;
    let after = shape_step(shape, scan, token);
    match token {
        TokenView::Anchor { hashtag, href } => {
            if !(hashtag && !scan.in_hashtag) {
                assert(shape_text(after) =~= scan.out + link_open(href.unwrap()));
            }
        },
        TokenView::AnchorEnd => {
            if !scan.in_hashtag {
                let (href, inner) = shape.open.unwrap();
                assert(after.done.drop_last() =~= shape.done);
                assert(shape_text(after) =~= scan.out + link_close());
            }
        },
        TokenView::Break => {
            match shape.open {
                Some((href, inner)) => {
                    assert(shape_text(after) =~= scan.out.push('\n'));
                },
                None => {
                    assert(after.done.drop_last() =~= shape.done);
                    assert(shape_text(after) =~= scan.out.push('\n'));
                },
            }
        },
        TokenView::Text { text } => {
            if !(scan.in_link || scan.in_hashtag) {
                assert(after.done.drop_last() =~= shape.done);
                assert(shape_text(after) =~= scan.out + text.unwrap());
            }
        },
        _ => {},
    }
}

/// Tokens that the scanner takes keep the shape in step with the output.
pub proof fn lemma_shape_all(shape: Shape, scan: Scan, tokens: Seq<TokenView>)
    requires
        shapes(shape, scan),
        scan_all(scan, tokens) is Ok,
    ensures
        shapes(shape_all(shape, scan, tokens), scan_all(scan, tokens)->Ok_0),
    decreases tokens.len(),
{
    if tokens.len() > 0 {
        lemma_shape_step(shape, scan, tokens[0]);
        lemma_shape_all(
            shape_step(shape, scan, tokens[0]),
            step(scan, tokens[0])->Ok_0,
            tokens.drop_first(),
        );
    }
}

/// The output is well-formed: it is a run of stretches, each either text
/// that was kept or a plain link that is opened, closed and not nested.
pub proof fn lemma_cleaned_is_balanced(tokens: Seq<TokenView>)
    requires
        cleaned(tokens) is Ok,
    ensures
        cleaned(tokens)->Ok_0 == rendered(stretches_of(tokens)),
{
    let start = Shape { done: Seq::empty(), open: None };
    assert(shape_text(start) =~= scan_start().out);
    lemma_shape_all(start, scan_start(), tokens);
    let end = shape_all(start, scan_start(), tokens);
    assert(shape_text(end) =~= rendered(end.done));
}

/// Text outside any link is kept as it is.
pub proof fn lemma_text_is_kept(text: Seq<char>)
    ensures
        cleaned(seq![TokenView::Text { text: Some(text) }]) == Ok::<Seq<char>, ParseError>(text),
{
    let tokens = seq![TokenView::Text { text: Some(text) }];
    reveal_with_fuel(scan_all, 2);
    assert(tokens.drop_first().len() == 0);
    assert(Seq::<char>::empty() + text =~= text);
}

/// A plain link becomes an anchor that shows its own target; what the link
/// showed is dropped, whatever it was.
pub proof fn lemma_link_shows_its_target(href: Seq<char>, label: Option<Seq<char>>)
    ensures
        cleaned(
            seq![
                TokenView::Anchor { hashtag: false, href: Some(href) },
                TokenView::Text { text: label },
                TokenView::AnchorEnd,
            ],
        ) == Ok::<Seq<char>, ParseError>(link_open(href) + link_close()),
{
    let tokens = seq![
        TokenView::Anchor { hashtag: false, href: Some(href) },
        TokenView::Text { text: label },
        TokenView::AnchorEnd,
    ];
    reveal_with_fuel(scan_all, 4);
    let t1 = tokens.drop_first();
    let t2 = t1.drop_first();
    assert(t1[0] == tokens[1]);
    assert(t2[0] == tokens[2]);
    assert(t2.drop_first().len() == 0);
    assert(Seq::<char>::empty() + link_open(href) =~= link_open(href));
}

/// A hashtag link leaves nothing in the output, whatever it showed and
/// wherever it led.
pub proof fn lemma_hashtag_leaves_nothing(href: Option<Seq<char>>, label: Option<Seq<char>>)
    ensures
        cleaned(
            seq![
                TokenView::Anchor { hashtag: true, href },
                TokenView::Text { text: label },
                TokenView::AnchorEnd,
            ],
        ) == Ok::<Seq<char>, ParseError>(Seq::empty()),
{
    let tokens = seq![
        TokenView::Anchor { hashtag: true, href },
        TokenView::Text { text: label },
        TokenView::AnchorEnd,
    ];
    reveal_with_fuel(scan_all, 4);
    let t1 = tokens.drop_first();
    let t2 = t1.drop_first();
    assert(t1[0] == tokens[1]);
    assert(t2[0] == tokens[2]);
    assert(t2.drop_first().len() == 0);
}

/// A line break becomes a newline.
pub proof fn lemma_break_is_a_newline()
    ensures
        cleaned(seq![TokenView::Break]) == Ok::<Seq<char>, ParseError>(seq!['\n']),
{
    let tokens = seq![TokenView::Break];
    reveal_with_fuel(scan_all, 2);
    assert(tokens.drop_first().len() == 0);
    assert(Seq::<char>::empty().push('\n') =~= seq!['\n']);
}

/// Whether `r` is the result `want`, a text being taken by its characters.
pub open spec fn is_result(r: Result<String, ParseError>, want: Result<Seq<char>, ParseError>) -> bool {
    match want {
        Ok(out) => r is Ok && r->Ok_0@ == out,
        Err(e) => r == Err::<String, ParseError>(e),
    }
}

/// Turns the tokens of a body, one after the other, into the text that is
/// sent.
pub struct Scanner {
    out: String,
    in_link: bool,
    in_hashtag: bool,
}

impl View for Scanner {
    type V = Scan;

    closed spec fn view(&self) -> Scan {
        Scan { out: self.out@, in_link: self.in_link, in_hashtag: self.in_hashtag }
    }
}

impl Scanner {
    /// A scanner that has seen no token.
    pub fn new() -> (scanner: Self)
        ensures
            scanner@ == scan_start(),
    {
        Scanner { out: String::new(), in_link: false, in_hashtag: false }
    }

    /// Takes one more token. A token that is refused leaves the scanner as
    /// it was.
    pub fn feed(&mut self, token: &Token) -> (r: Result<(), ParseError>)
        ensures
            match step(old(self)@, token@) {
                Ok(next) => r is Ok && final(self)@ == next,
                Err(e) => r == Err::<(), ParseError>(e) && final(self)@ == old(self)@,
            },
    {
        match token {
            Token::Anchor { hashtag, href } => {
                if *hashtag && !self.in_hashtag {
                    self.in_hashtag = true;
                    Ok(())
                } else if !self.in_link {
                    match href {
                        None => Err(ParseError::MissingHref),
                        Some(target) => {
                            let ghost before = self.out@;
                            self.out.append("<a href=\"");
                            self.out.append(target.as_str());
                            self.out.append("\">");
                            self.out.append(target.as_str());
                            self.in_link = true;
                            assert(self.out@ =~= before + link_open(target@));
                            Ok(())
                        },
                    }
                } else {
                    Err(ParseError::UnknownAnchor)
                }
            },
            Token::AnchorEnd => {
                if self.in_hashtag {
                    self.in_hashtag = false;
                    Ok(())
                } else if self.in_link {
                    self.out.append("</a>");
                    self.in_link = false;
                    Ok(())
                } else {
                    Err(ParseError::UnknownAnchor)
                }
            },
            Token::Break => {
                let ghost before = self.out@;
                self.out.append("\n");
                proof {
                    reveal_strlit("\n");
                    assert(self.out@ =~= before.push('\n'));
                }
                Ok(())
            },
            Token::Text { text } => {
                if self.in_link || self.in_hashtag {
                    Ok(())
                } else {
                    match text {
                        None => Err(ParseError::Malformed),
                        Some(t) => {
                            self.out.append(t.as_str());
                            Ok(())
                        },
                    }
                }
            },
            Token::Skip => Ok(()),
            Token::Broken => Err(ParseError::Malformed),
        }
    }

    /// Hands out what was written. A body that ends inside a plain link is
    /// refused: every anchor in the output is closed.
    pub fn finish(self) -> (r: Result<String, ParseError>)
        ensures
            is_result(r, finished(self@)),
    {
        if self.in_link {
            Err(ParseError::UnclosedAnchor)
        } else {
            Ok(self.out)
        }
    }
}

/// Rewrites a sequence of tokens to the text that is sent.
pub fn clean_tokens(tokens: &Vec<Token>) -> (r: Result<String, ParseError>)
    ensures
        is_result(r, cleaned(token_views(tokens@))),
{
    let mut scanner = Scanner::new();
    let ghost all = token_views(tokens@);
    let mut i: usize = 0;
    assert(all.skip(0) =~= all);
    while i < tokens.len()
        invariant
            0 <= i <= tokens.len(),
            all == token_views(tokens@),
            scan_all(scan_start(), all) == scan_all(scanner@, all.skip(i as int)),
        decreases tokens.len() - i,
    {
        proof {
            assert(all.skip(i as int)[0] == tokens@[i as int]@);
            assert(all.skip(i as int).drop_first() =~= all.skip(i as int + 1));
        }
        match scanner.feed(&tokens[i]) {
            Ok(()) => {},
            Err(e) => {
                return Err(e);
            },
        }
        i = i + 1;
    }
    assert(all.skip(i as int).len() == 0);
    scanner.finish()
}

/// Rewrites the body of a post to the text that is sent: line breaks become
/// newlines, a plain link becomes an anchor that shows its own target, the
/// text of links is dropped, all other text is kept with its escapes
/// resolved.
pub fn clean_body(body: &str) -> (r: Result<String, ParseError>)
    ensures
        is_result(r, cleaned(body_tokens(body@))),
{
    let tokens = tokenize(body);
    clean_tokens(&tokens)
}

} // verus!
