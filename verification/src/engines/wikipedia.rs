//! The Wikipedia-like provider: one instance per language, twenty results
//! per page with a zero-based offset, host-relative links resolved against
//! the instance's host, and a per-instance tag.
use vstd::prelude::*;
use vstd::string::*;

use crate::engines::common::build_query;
use crate::engines::common::build_query_spec;
use crate::engines::search_result_parser::extraction_spec;
use crate::engines::search_result_parser::marker_texts_of;
use crate::engines::search_result_parser::parser_config_ok;
use crate::engines::search_result_parser::raw_items_of;
use crate::engines::search_result_parser::response_view;
use crate::engines::search_result_parser::ResultBuilder;
use crate::engines::search_result_parser::ResultBuilderView;
use crate::engines::search_result_parser::SearchResultParser;
use crate::engines::search_result_parser::SearchResultParserView;
use crate::models::pair_views;
use crate::models::EngineError;
use crate::models::PageContext;
use crate::models::PageContextView;
use crate::models::ParserConfigError;
use crate::models::RequestSpec;
use crate::models::RequestSpecView;
use crate::models::SearchResult;
use crate::text::dec_digits;
use crate::text::u64_to_dec;

verus! {

/// The five Wikipedia selectors.
pub open spec fn wikipedia_selectors() -> SearchResultParserView {
    SearchResultParserView {
        no_result: "p.mw-search-nonefound"@,
        result_item: ".mw-search-results li.mw-search-result"@,
        title: ".mw-search-result-heading a"@,
        link: ".mw-search-result-heading a"@,
        description: ".searchresult"@,
    }
}

/// The mathematical value of a [`Wikipedia`] instance: its host and its
/// per-instance tag.
pub ghost struct WikipediaView {
    pub host: Seq<char>,
    pub id: Seq<char>,
}

/// The host a language maps to.
pub open spec fn wikipedia_host(language: Seq<char>) -> Seq<char> {
    "https://"@ + language + ".wikipedia.org"@
}

/// The per-instance tag a language maps to.
pub open spec fn wikipedia_id(language: Seq<char>) -> Seq<char> {
    "wikipedia-"@ + language
}

/// Wikipedia counts from a zero-based offset, twenty per page.
pub open spec fn wikipedia_offset(page: nat) -> nat {
    20 * page
}

/// The ordered query parameters for a page context.
pub open spec fn wikipedia_params(ctx: PageContextView) -> Seq<(Seq<char>, Seq<char>)> {
    seq![
        ("limit"@, "20"@),
        ("offset"@, dec_digits(wikipedia_offset(ctx.page))),
        ("profile"@, "default"@),
        ("search"@, ctx.query),
        ("title"@, "Special:Search"@),
        ("ns0"@, "1"@),
    ]
}

/// The request a Wikipedia instance builds for a page context: the Referer
/// header names the instance's own host.
pub open spec fn wikipedia_request_spec(v: WikipediaView, ctx: PageContextView) -> RequestSpecView {
    RequestSpecView {
        url: v.host + "/w/index.php?"@ + build_query_spec(wikipedia_params(ctx)),
        headers: seq![("User-Agent"@, ctx.user_agent), ("Referer"@, v.host)],
        offset: wikipedia_offset(ctx.page),
    }
}

/// What a Wikipedia instance makes of a fetched page: any matched
/// no-result element short-circuits to `EmptyResultSet`; otherwise the
/// extracted items, their host-relative links resolved against the host
/// and each tagged with the instance's id.
pub open spec fn wikipedia_response_spec(v: WikipediaView, body: Seq<char>) -> Result<
    Seq<(Seq<char>, crate::models::SearchResultView)>,
    EngineError,
> {
    if marker_texts_of(body, wikipedia_selectors().no_result).len() > 0 {
        Err(EngineError::EmptyResultSet)
    } else {
        Ok(
            extraction_spec(
                raw_items_of(
                    body,
                    wikipedia_selectors().result_item,
                    wikipedia_selectors().title,
                    wikipedia_selectors().link,
                    wikipedia_selectors().description,
                ),
                ResultBuilderView::Wikipedia { host: v.host, id: v.id },
            ),
        )
    }
}

/// A new Wikipedia engine type, implementing the common provider
/// capability set over its own configured parser.
pub struct Wikipedia {
    parser: SearchResultParser,
    id: String,
    host: String,
}

impl View for Wikipedia {
    type V = WikipediaView;

    closed spec fn view(&self) -> WikipediaView {
        WikipediaView { host: self.host@, id: self.id@ }
    }
}

impl Wikipedia {
    #[verifier::type_invariant]
    spec fn wf(self) -> bool {
        self.parser@ == wikipedia_selectors()
    }

    /// Creates the Wikipedia parser for one language.
    pub fn new(language: &str) -> (r: Result<Wikipedia, ParserConfigError>)
        ensures
            r is Ok <==> parser_config_ok(wikipedia_selectors()),
            r matches Ok(w) ==> w@ == (WikipediaView {
                host: wikipedia_host(language@),
                id: wikipedia_id(language@),
            }),
    {
        let mut host = String::from_str("https://");
        host.append(language);
        host.append(".wikipedia.org");
        let mut id = String::from_str("wikipedia-");
        id.append(language);
        match SearchResultParser::new(
            "p.mw-search-nonefound",
            ".mw-search-results li.mw-search-result",
            ".mw-search-result-heading a",
            ".mw-search-result-heading a",
            ".searchresult",
        ) {
            Ok(parser) => Ok(Wikipedia { parser, id, host }),
            Err(e) => Err(e),
        }
    }

    /// Build the provider request for a page context.
    pub fn build_request(&self, ctx: &PageContext) -> (r: RequestSpec)
        ensures
            r@ == wikipedia_request_spec(self@, ctx@),
    {
        let offset: u64 = 20u64 * (ctx.page as u64);
        let offset_string = u64_to_dec(offset);
        let mut params: Vec<(String, String)> = Vec::new();
        params.push((String::from_str("limit"), String::from_str("20")));
        params.push((String::from_str("offset"), offset_string));
        params.push((String::from_str("profile"), String::from_str("default")));
        params.push((String::from_str("search"), ctx.query.clone()));
        params.push((String::from_str("title"), String::from_str("Special:Search")));
        params.push((String::from_str("ns0"), String::from_str("1")));
        proof {
            assert(pair_views(params@) =~= wikipedia_params(ctx@));
        }
        let query_params_string = build_query(&params);
        let mut url = self.host.clone();
        url.append("/w/index.php?");
        url.append(query_params_string.as_str());
        let mut headers: Vec<(String, String)> = Vec::new();
        headers.push((String::from_str("User-Agent"), ctx.user_agent.clone()));
        headers.push((String::from_str("Referer"), self.host.clone()));
        let r = RequestSpec { url, headers, offset };
        proof {
            assert(r@.url =~= wikipedia_request_spec(self@, ctx@).url);
            assert(r@.headers =~= wikipedia_request_spec(self@, ctx@).headers);
        }
        r
    }

    /// Classify and extract a fetched result page.
    pub fn process_response(&self, body: &str) -> (r: Result<
        Vec<(String, SearchResult)>,
        EngineError,
    >)
        ensures
            response_view(r) == wikipedia_response_spec(self@, body@),
    {
        proof {
            use_type_invariant(&*self);
        }
        let markers = self.parser.find_no_result_markers(body);
        if markers.len() > 0 {
            return Err(EngineError::EmptyResultSet);
        }
        let builder = ResultBuilder::Wikipedia { host: self.host.clone(), id: self.id.clone() };
        Ok(self.parser.extract_results(body, &builder))
    }
}

} // verus!
