//! URLs as `reqwest::Url::parse` reads them, held as plain values.

use vstd::prelude::*;

verus! {

/// The parts of a parsed URL that Legion's rules look at.
pub struct UrlView {
    pub scheme: Seq<char>,
    pub host: Option<Seq<char>>,
    pub path: Seq<char>,
    pub query: Option<Seq<char>>,
    pub fragment: Option<Seq<char>>,
}

/// A parsed URL: its scheme, host, path, query and fragment as strings.
#[derive(Debug, Clone)]
pub struct ParsedUrl {
    pub scheme: String,
    pub host: Option<String>,
    pub path: String,
    pub query: Option<String>,
    pub fragment: Option<String>,
}

/// The view of an optional string.
pub open spec fn opt_view(o: Option<String>) -> Option<Seq<char>> {
    match o {
        Some(s) => Some(s@),
        None => None,
    }
}

impl View for ParsedUrl {
    type V = UrlView;

    open spec fn view(&self) -> UrlView {
        UrlView {
            scheme: self.scheme@,
            host: opt_view(self.host),
            path: self.path@,
            query: opt_view(self.query),
            fragment: opt_view(self.fragment),
        }
    }
}

impl ParsedUrl {
    /// The URL's scheme, such as `https`.
    pub fn scheme(&self) -> (r: &str)
        ensures
            r@ == self.scheme@,
    {
        self.scheme.as_str()
    }
}

/// What `reqwest::Url::parse` gives for an input: the parsed URL's parts, or the
/// text of its parse error.
pub uninterp spec fn url_parse(input: Seq<char>) -> Result<UrlView, Seq<char>>;

/// Calls `reqwest::Url::parse` (the `url` crate) and takes the result apart with
/// `scheme`, `host_str`, `path`, `query` and `fragment`; the error is its
/// `Display` text. The contract claims only that the result is the one named
/// `url_parse` for this input.
#[verifier::external_body]
pub(crate) fn parse_url(input: &str) -> (r: Result<ParsedUrl, String>)
    ensures
        match r {
            Ok(u) => url_parse(input@) == Ok::<UrlView, Seq<char>>(u@),
            Err(e) => url_parse(input@) == Err::<UrlView, Seq<char>>(e@),
        },
{
    match reqwest::Url::parse(input) {
        Ok(url) => Ok(ParsedUrl {
            scheme: url.scheme().to_owned(),
            host: url.host_str().map(str::to_owned),
            path: url.path().to_owned(),
            query: url.query().map(str::to_owned),
            fragment: url.fragment().map(str::to_owned),
        }),
        Err(error) => Err(error.to_string()),
    }
}

/// The view of a URL parse's outcome.
pub open spec fn parsed_view(parsed: Result<ParsedUrl, String>) -> Result<UrlView, Seq<char>> {
    match parsed {
        Ok(u) => Ok(u@),
        Err(e) => Err(e@),
    }
}

} // verus!
