//! The Yahoo-like provider: ten results per page with a one-based `b`
//! offset that page 0 omits entirely, a fixed locale cookie, and fallback
//! texts when a title or link attribute is missing.
use vstd::prelude::*;
use vstd::string::*;

use crate::engines::search_result_parser::extraction_spec;
use crate::engines::search_result_parser::marker_texts_of;
use crate::engines::search_result_parser::parser_config_ok;
use crate::engines::search_result_parser::raw_items_of;
use crate::engines::search_result_parser::response_view;
use crate::engines::search_result_parser::ResultBuilder;
use crate::engines::search_result_parser::ResultBuilderView;
use crate::engines::search_result_parser::SearchResultParser;
use crate::engines::search_result_parser::SearchResultParserView;
use crate::models::EngineError;
use crate::models::PageContext;
use crate::models::PageContextView;
use crate::models::ParserConfigError;
use crate::models::RequestSpec;
use crate::models::RequestSpecView;
use crate::models::SearchResult;
use crate::text::dec_digits;
use crate::text::u64_to_dec;

verus! {

/// The five Yahoo selectors.
pub open spec fn yahoo_selectors() -> SearchResultParserView {
    SearchResultParserView {
        no_result: ".compNoResult"@,
        result_item: "div.algo"@,
        title: "h3.title a"@,
        link: "h3 a"@,
        description: ".compText"@,
    }
}

/// Yahoo counts from a one-based offset, ten per page; page 0 maps to the
/// canonical first-page url with no offset parameter.
pub open spec fn yahoo_offset(page: nat) -> nat {
    10 * page + 1
}

/// The request Yahoo builds for a page context.
pub open spec fn yahoo_request_spec(ctx: PageContextView) -> RequestSpecView {
    RequestSpecView {
        url: if ctx.page == 0 {
            "https://search.yahoo.com/search/?p="@ + ctx.query
        } else {
            "https://search.yahoo.com/search/?p="@ + ctx.query + "&b="@ + dec_digits(
                yahoo_offset(ctx.page),
            )
        },
        headers: seq![
            ("User-Agent"@, ctx.user_agent),
            ("Referer"@, "https://google.com/"@),
            ("Content-Type"@, "application/x-www-form-urlencoded"@),
            ("Cookie"@, "kl=wt-wt"@),
        ],
        offset: yahoo_offset(ctx.page),
    }
}

/// What Yahoo makes of a fetched page: any matched no-result element
/// short-circuits to `EmptyResultSet`; otherwise the extracted items.
pub open spec fn yahoo_response_spec(body: Seq<char>) -> Result<
    Seq<(Seq<char>, crate::models::SearchResultView)>,
    EngineError,
> {
    if marker_texts_of(body, yahoo_selectors().no_result).len() > 0 {
        Err(EngineError::EmptyResultSet)
    } else {
        Ok(
            extraction_spec(
                raw_items_of(
                    body,
                    yahoo_selectors().result_item,
                    yahoo_selectors().title,
                    yahoo_selectors().link,
                    yahoo_selectors().description,
                ),
                ResultBuilderView::Yahoo,
            ),
        )
    }
}

/// A new Yahoo engine type, implementing the common provider capability
/// set over its own configured parser.
pub struct Yahoo {
    parser: SearchResultParser,
}

impl Yahoo {
    #[verifier::type_invariant]
    spec fn wf(self) -> bool {
        self.parser@ == yahoo_selectors()
    }

    /// Creates the Yahoo parser.
    pub fn new() -> (r: Result<Yahoo, ParserConfigError>)
        ensures
            r is Ok <==> parser_config_ok(yahoo_selectors()),
    {
        match SearchResultParser::new(".compNoResult", "div.algo", "h3.title a", "h3 a", ".compText") {
            Ok(parser) => Ok(Yahoo { parser }),
            Err(e) => Err(e),
        }
    }

    /// Build the provider request for a page context.
    pub fn build_request(&self, ctx: &PageContext) -> (r: RequestSpec)
        ensures
            r@ == yahoo_request_spec(ctx@),
    {
        let offset: u64 = 10u64 * (ctx.page as u64) + 1;
        let mut url = String::from_str("https://search.yahoo.com/search/?p=");
        url.append(ctx.query.as_str());
        if ctx.page != 0 {
            url.append("&b=");
            let start = u64_to_dec(offset);
            url.append(start.as_str());
        }
        let mut headers: Vec<(String, String)> = Vec::new();
        headers.push((String::from_str("User-Agent"), ctx.user_agent.clone()));
        headers.push((String::from_str("Referer"), String::from_str("https://google.com/")));
        headers.push(
            (
                String::from_str("Content-Type"),
                String::from_str("application/x-www-form-urlencoded"),
            ),
        );
        headers.push((String::from_str("Cookie"), String::from_str("kl=wt-wt")));
        let r = RequestSpec { url, headers, offset };
        proof {
            assert(r@.url =~= yahoo_request_spec(ctx@).url);
            assert(r@.headers =~= yahoo_request_spec(ctx@).headers);
        }
        r
    }

    /// Classify and extract a fetched result page.
    pub fn process_response(&self, body: &str) -> (r: Result<
        Vec<(String, SearchResult)>,
        EngineError,
    >)
        ensures
            response_view(r) == yahoo_response_spec(body@),
    {
        proof {
            use_type_invariant(&*self);
        }
        let markers = self.parser.find_no_result_markers(body);
        if markers.len() > 0 {
            return Err(EngineError::EmptyResultSet);
        }
        Ok(self.parser.extract_results(body, &ResultBuilder::Yahoo))
    }
}

} // verus!
