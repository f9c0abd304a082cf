//! The common result shape, the page context handed to every provider, the
//! request description a provider builds, and the error taxonomy.
use vstd::prelude::*;
use vstd::string::*;

use crate::text::trim;
use crate::text::trim_spec;

verus! {

/// A provider-level failure. `EmptyResultSet` is the benign "the provider
/// explicitly reported no matches"; `UnexpectedError` covers transport,
/// header-construction and parse failures.
#[derive(Clone, Copy, Debug, PartialEq, Eq, Structural)]
pub enum EngineError {
    EmptyResultSet,
    UnexpectedError,
}

/// An invalid selector at parser-construction time: fatal at startup, never
/// produced per-request.
#[derive(Clone, Copy, Debug, PartialEq, Eq, Structural)]
pub struct ParserConfigError;

/// The mathematical value of a [`SearchResult`].
pub ghost struct SearchResultView {
    pub title: Seq<char>,
    pub url: Seq<char>,
    pub description: Seq<char>,
    pub engines: Seq<Seq<char>>,
}

/// One extracted result: a title, a provider-reported url, a description,
/// and the set of provider tags that returned it.
#[derive(Clone, Debug)]
pub struct SearchResult {
    pub title: String,
    pub url: String,
    pub description: String,
    pub engines: Vec<String>,
}

impl View for SearchResult {
    type V = SearchResultView;

    open spec fn view(&self) -> SearchResultView {
        SearchResultView {
            title: self.title@,
            url: self.url@,
            description: self.description@,
            engines: self.engines.deep_view(),
        }
    }
}

impl SearchResult {
    /// Build a result, removing surrounding whitespace from the three text
    /// fields. The tag set must not be empty: a result always names the
    /// provider that produced it.
    pub fn new(title: &str, url: &str, description: &str, engines: Vec<String>) -> (r:
        SearchResult)
        requires
            engines@.len() > 0,
        ensures
            r@ == (SearchResultView {
                title: trim_spec(title@),
                url: trim_spec(url@),
                description: trim_spec(description@),
                engines: engines.deep_view(),
            }),
    {
        SearchResult {
            title: String::from_str(trim(title)),
            url: String::from_str(trim(url)),
            description: String::from_str(trim(description)),
            engines,
        }
    }
}

/// The mathematical value of a [`PageContext`].
pub ghost struct PageContextView {
    pub query: Seq<char>,
    pub page: nat,
    pub safe_search: nat,
    pub user_agent: Seq<char>,
}

/// The read-only per-request inputs: query text, zero-based page index,
/// safe-search level and the caller's user agent.
#[derive(Clone, Debug)]
pub struct PageContext {
    pub query: String,
    pub page: u32,
    pub safe_search: u8,
    pub user_agent: String,
}

impl View for PageContext {
    type V = PageContextView;

    open spec fn view(&self) -> PageContextView {
        PageContextView {
            query: self.query@,
            page: self.page as nat,
            safe_search: self.safe_search as nat,
            user_agent: self.user_agent@,
        }
    }
}

/// The mathematical value of a [`RequestSpec`].
pub ghost struct RequestSpecView {
    pub url: Seq<char>,
    pub headers: Seq<(Seq<char>, Seq<char>)>,
    pub offset: nat,
}

/// Everything a caller needs to perform one provider fetch: the full target
/// url, the ordered header list, and the provider's page offset.
#[derive(Clone, Debug)]
pub struct RequestSpec {
    pub url: String,
    pub headers: Vec<(String, String)>,
    pub offset: u64,
}

/// The pairwise views of a sequence of string pairs.
pub open spec fn pair_views(s: Seq<(String, String)>) -> Seq<(Seq<char>, Seq<char>)> {
    s.map_values(|p: (String, String)| (p.0@, p.1@))
}

impl View for RequestSpec {
    type V = RequestSpecView;

    open spec fn view(&self) -> RequestSpecView {
        RequestSpecView {
            url: self.url@,
            headers: pair_views(self.headers@),
            offset: self.offset as nat,
        }
    }
}

} // verus!
