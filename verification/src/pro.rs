//! Where pages come from.
//!
//! A producer holds the address of the next page. The address says how the
//! page is read; a page that was read is checked, and its link to the page
//! before it becomes the next address.

use vstd::prelude::*;
use crate::as2::{page_conforms, page_fault, Page};
use crate::error::{ConfigError, Error, Failure};
use crate::text::{has_prefix, same, starts_with};

verus! {

/// Something that hands out the pages of an outbox, one at each call. A
/// page without posts says that there are no more for now.
pub trait Pro {
    fn fetch(&mut self) -> Result<Page, Error>;
}

/// How the page at an address is read.
#[derive(Debug, Clone, Copy, PartialEq, Eq, Structural)]
pub enum Source {
    /// By a request to the address.
    Http,
    /// From the standard input, once.
    Stdin,
}

/// How the page at `uri` is read: by a request where the address begins
/// with `http://` or `https://`, from the standard input where it is
/// `stdio://in`. No other address is accepted.
pub open spec fn source_of(uri: Seq<char>) -> Result<Source, ConfigError> {
    if has_prefix(uri, "http://"@) || has_prefix(uri, "https://"@) {
        Ok(Source::Http)
    } else if uri == "stdio://in"@ {
        Ok(Source::Stdin)
    } else {
        Err(ConfigError::InvalidUri)
    }
}

/// The address of the page after `page`, read from `uri`: the link of the
/// page to the one before it, and `uri` again where it has none.
pub open spec fn next_uri(uri: Seq<char>, page: Page) -> Seq<char> {
    match page.prev {
        Some(prev) => prev@,
        None => uri,
    }
}

/// A producer that reads the page at an address.
pub struct UriPro {
    uri: String,
}

impl View for UriPro {
    type V = Seq<char>;

    /// The address of the next page.
    closed spec fn view(&self) -> Seq<char> {
        self.uri@
    }
}

impl UriPro {
    /// A producer whose first page is at `uri`.
    pub fn new(uri: String) -> (pro: Self)
        ensures
            pro@ == uri@,
    {
        Self { uri }
    }

    /// The address of the next page.
    pub fn uri(&self) -> (uri: &str)
        ensures
            uri@ == self@,
    {
        self.uri.as_str()
    }

    /// How the next page is read.
    pub fn source(&self) -> (r: Result<Source, ConfigError>)
        ensures
            r == source_of(self@),
    {
        let uri = self.uri.as_str();
        if starts_with(uri, "http://") || starts_with(uri, "https://") {
            Ok(Source::Http)
        } else if same(uri, "stdio://in") {
            Ok(Source::Stdin)
        } else {
            Err(ConfigError::InvalidUri)
        }
    }

    /// Takes in the page that was read from the address. A page outside the
    /// vocabulary is refused and the address stays. A page inside it moves
    /// the address on to the page before it.
    pub fn accept(&mut self, page: &Page) -> (r: Result<(), Error>)
        ensures
            match page_fault(*page) {
                Some(fault) => r is Err && r->Err_0@ == Failure::Validation(fault) && final(self)@
                    == old(self)@,
                None => r is Ok && final(self)@ == next_uri(old(self)@, *page),
            },
            r is Ok <==> page_conforms(*page),
    {
        match page.validate() {
            Ok(()) => {},
            Err(e) => {
                return Err(Error::Validation(e));
            },
        }
        match &page.prev {
            Some(prev) => {
                self.uri = prev.clone();
            },
            None => {},
        }
        Ok(())
    }
}

} // verus!
