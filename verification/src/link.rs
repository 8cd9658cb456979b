//! The parts of a URL that the crawl reads.

use url::{ParseError, Url};
use vstd::prelude::*;

verus! {

/// Why a text could not be read as a URL.
#[derive(Debug, Clone, Copy, PartialEq, Eq, Structural)]
pub enum LinkError {
    /// The text is a relative reference, which needs a base to be resolved.
    RelativeWithoutBase,
    /// The text is no URL, with or without a base.
    Invalid,
}

/// A parsed URL, as far as the crawl reads it.
#[derive(Debug, Clone, PartialEq, Eq)]
pub struct Link {
    /// The whole URL in its normal form. Two links are the same resource
    /// exactly if they agree in this.
    pub href: String,
    /// The host, where the URL has one.
    pub host: Option<String>,
    /// The path, percent-encoded.
    pub path: String,
    /// The query string behind the `?`, where the URL has one.
    pub query: Option<String>,
    /// Whether the URL is opaque, as `mailto:` and `data:` URLs are: it has
    /// no hierarchy that a relative reference could be resolved in.
    pub cannot_be_a_base: bool,
}

/// The mathematical value of a [`Link`].
pub struct LinkView {
    pub href: Seq<char>,
    pub host: Option<Seq<char>>,
    pub path: Seq<char>,
    pub query: Option<Seq<char>>,
    pub cannot_be_a_base: bool,
}

/// The text of an optional string.
pub open spec fn text_of(s: Option<String>) -> Option<Seq<char>> {
    match s {
        Some(s) => Some(s@),
        None => None,
    }
}

impl View for Link {
    type V = LinkView;

    open spec fn view(&self) -> LinkView {
        LinkView {
            href: self.href@,
            host: text_of(self.host),
            path: self.path@,
            query: text_of(self.query),
            cannot_be_a_base: self.cannot_be_a_base,
        }
    }
}

/// The mathematical value of the outcome of reading a URL.
pub open spec fn outcome_view(outcome: Result<Link, LinkError>) -> Result<LinkView, LinkError> {
    match outcome {
        Ok(link) => Ok(link@),
        Err(error) => Err(error),
    }
}

/// What `Url::parse` makes of a text: the parts of the URL, or the reason
/// why the text is none.
pub uninterp spec fn url_parse(input: Seq<char>) -> Result<LinkView, LinkError>;

/// The normal form of what `Url::join` makes of a reference, read against
/// the URL with the text `base`; `None` where either is not to be read.
pub uninterp spec fn url_join(base: Seq<char>, input: Seq<char>) -> Option<Seq<char>>;

/// `Url::parse` reads an absolute URL. The parts of the outcome are taken
/// with `as_str`, `host_str`, `path`, `query` and `cannot_be_a_base`; of the
/// errors only `RelativeUrlWithoutBase` is told apart from the rest.
#[verifier::external_body]
fn parse_url(input: &str) -> (outcome: Result<Link, LinkError>)
    ensures
        outcome_view(outcome) == url_parse(input@),
{
    match Url::parse(input) {
        Ok(url) => Ok(
            Link {
                href: url.as_str().to_owned(),
                host: url.host_str().map(str::to_owned),
                path: url.path().to_owned(),
                query: url.query().map(str::to_owned),
                cannot_be_a_base: url.cannot_be_a_base(),
            },
        ),
        Err(ParseError::RelativeUrlWithoutBase) => Err(LinkError::RelativeWithoutBase),
        Err(_) => Err(LinkError::Invalid),
    }
}

/// `Url::join` reads `input` as a reference against the URL that
/// `Url::parse` makes of `base`, and the outcome is handed over in its normal
/// form, as `as_str` gives it.
#[verifier::external_body]
fn join_url(base: &str, input: &str) -> (joined: Option<String>)
    ensures
        text_of(joined) == url_join(base@, input@),
{
    match Url::parse(base) {
        Ok(base) => match base.join(input) {
            Ok(url) => Some(url.as_str().to_owned()),
            Err(_) => None,
        },
        Err(_) => None,
    }
}

/// What a reference found in the page at `base` points to: the reference
/// itself where it is an absolute URL; where it is a relative one, what it
/// gives when read against `base`; and nothing where neither can be read.
pub open spec fn resolved(base: Seq<char>, reference: Seq<char>) -> Option<LinkView> {
    match url_parse(reference) {
        Ok(link) => Some(link),
        Err(LinkError::RelativeWithoutBase) => match url_join(base, reference) {
            Some(href) => match url_parse(href) {
                Ok(link) => Some(link),
                Err(_) => None,
            },
            None => None,
        },
        Err(LinkError::Invalid) => None,
    }
}

/// The value of an optional link.
pub open spec fn link_of(link: Option<Link>) -> Option<LinkView> {
    match link {
        Some(link) => Some(link@),
        None => None,
    }
}

impl Link {
    /// Reads an absolute URL.
    pub fn parse(input: &str) -> (outcome: Result<Link, LinkError>)
        ensures
            outcome_view(outcome) == url_parse(input@),
    {
        parse_url(input)
    }

    /// The normal form of the URL that `reference` gives when it is read
    /// against `self`, where it gives one.
    pub fn join(&self, reference: &str) -> (joined: Option<String>)
        ensures
            text_of(joined) == url_join(self.href@, reference@),
    {
        join_url(self.href.as_str(), reference)
    }

    /// Reads `reference` as it stands in the page at `self`: as an absolute
    /// URL, or else relative to `self`.
    pub fn resolve(&self, reference: &str) -> (link: Option<Link>)
        ensures
            link_of(link) == resolved(self.href@, reference@),
    {
        match parse_url(reference) {
            Ok(link) => Some(link),
            Err(LinkError::RelativeWithoutBase) => match join_url(self.href.as_str(), reference) {
                Some(href) => match parse_url(href.as_str()) {
                    Ok(link) => Some(link),
                    Err(_) => None,
                },
                None => None,
            },
            Err(LinkError::Invalid) => None,
        }
    }
}

} // verus!
