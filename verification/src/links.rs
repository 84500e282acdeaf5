//! Parsed links.

use vstd::prelude::*;
use crate::text::option_text;

verus! {

/// The error of `url::Url::parse`.
#[verifier::external_type_specification]
#[verifier::external_body]
pub struct ExUrlParseError(url::ParseError);

/// The parts of a link, as texts.
pub struct LinkTexts {
    pub scheme: Seq<char>,
    pub username: Seq<char>,
    pub password: Option<Seq<char>>,
    pub host: Option<Seq<char>>,
    pub path: Seq<char>,
    pub query: Option<Seq<char>>,
    pub fragment: Option<Seq<char>>,
}

/// The parts of a link.
#[derive(Debug, Clone, PartialEq, Eq)]
pub struct Link {
    pub scheme: String,
    pub username: String,
    pub password: Option<String>,
    pub host: Option<String>,
    pub path: String,
    pub query: Option<String>,
    pub fragment: Option<String>,
}

impl View for Link {
    type V = LinkTexts;

    open spec fn view(&self) -> LinkTexts {
        LinkTexts {
            scheme: self.scheme@,
            username: self.username@,
            password: option_text(self.password),
            host: option_text(self.host),
            path: self.path@,
            query: option_text(self.query),
            fragment: option_text(self.fragment),
        }
    }
}

/// The parts of the link that `url::Url::parse` reads from a text; nothing where it refuses the
/// text.
pub uninterp spec fn parsed_link(input: Seq<char>) -> Option<LinkTexts>;

/// `url::Url::parse`, with what the accessors `scheme`, `username`, `password`, `host_str`, `path`,
/// `query` and `fragment` then give. The claim: whether a text is accepted, and its parts, depend
/// on the text alone.
#[verifier::external_body]
pub(crate) fn url_parse(input: &str) -> (r: Result<Link, url::ParseError>)
    ensures
        match r {
            Ok(link) => parsed_link(input@) == Some(link@),
            Err(_) => parsed_link(input@) is None,
        },
{
    let url = url::Url::parse(input)?;
    Ok(Link {
        scheme: url.scheme().to_string(),
        username: url.username().to_string(),
        password: url.password().map(String::from),
        host: url.host_str().map(String::from),
        path: url.path().to_string(),
        query: url.query().map(String::from),
        fragment: url.fragment().map(String::from),
    })
}

} // verus!
