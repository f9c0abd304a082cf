//! The Mojeek-like provider: ten results per page starting at one, a fixed
//! anti-bot preference list sent both as query parameters and as a cookie,
//! and an explicit no-result marker text.
use vstd::prelude::*;
use vstd::string::*;

use crate::engines::common::build_cookie;
use crate::engines::common::build_cookie_spec;
use crate::engines::common::build_query;
use crate::engines::common::build_query_spec;
use crate::engines::search_result_parser::extraction_spec;
use crate::engines::search_result_parser::marker_texts_of;
use crate::engines::search_result_parser::parser_config_ok;
use crate::engines::search_result_parser::raw_items_of;
use crate::engines::search_result_parser::response_view;
use crate::engines::search_result_parser::ResultBuilder;
use crate::engines::search_result_parser::ResultBuilderView;
use crate::engines::search_result_parser::SearchResultParser;
use crate::engines::search_result_parser::SearchResultParserView;
use crate::models::pair_views;
use crate::models::EngineError;
use crate::models::PageContext;
use crate::models::PageContextView;
use crate::models::ParserConfigError;
use crate::models::RequestSpec;
use crate::models::RequestSpecView;
use crate::models::SearchResult;
use crate::text::contains_str;
use crate::text::contains_sub;
use crate::text::dec_digits;
use crate::text::join;
use crate::text::join_sep;
use crate::text::u64_to_dec;
use rc4::KeyInit;
use rc4::StreamCipher;
use vstd::utf8::encode_utf8;

verus! {

/// The five Mojeek selectors.
pub open spec fn mojeek_selectors() -> SearchResultParserView {
    SearchResultParserView {
        no_result: ".result-col"@,
        result_item: ".results-standard li"@,
        title: "h2 > a.title"@,
        link: "a.ob"@,
        description: "p.s"@,
    }
}

/// The text that marks an explicit empty result set.
pub open spec fn mojeek_no_result_marker() -> Seq<char> {
    "No pages found matching:"@
}

/// The upstream engine list sent in the `qss` preference, joined with an
/// encoded comma.
pub open spec fn mojeek_qss() -> Seq<char> {
    join_sep(
        seq![
            "Bing"@,
            "Brave"@,
            "DuckDuckGo"@,
            "Ecosia"@,
            "Google"@,
            "Lilo"@,
            "Metager"@,
            "Qwant"@,
            "Startpage"@,
            "Swisscows"@,
            "Yandex"@,
            "Yep"@,
            "You"@,
        ],
        "%2C"@,
    )
}

/// The ordered preference list: sent both as the query fragment and as the
/// cookie. The `safe` value is `0` exactly when the caller's safe-search
/// level is zero, else `1`.
pub open spec fn mojeek_params(ctx: PageContextView) -> Seq<(Seq<char>, Seq<char>)> {
    seq![
        ("t"@, "10"@),
        ("theme"@, "dark"@),
        ("arc"@, "none"@),
        ("date"@, "1"@),
        ("cdate"@, "1"@),
        ("tlen"@, "100"@),
        ("ref"@, "1"@),
        ("hp"@, "minimal"@),
        ("lb"@, "en"@),
        ("qss"@, mojeek_qss()),
        (
            "safe"@,
            if ctx.safe_search == 0 {
                "0"@
            } else {
                "1"@
            },
        ),
    ]
}

/// Mojeek starts results from a one-based offset: ten per page, so page 0
/// starts at 1, page 1 at 11, and so on.
pub open spec fn mojeek_offset(page: nat) -> nat {
    10 * page + 1
}

/// The request Mojeek builds for a page context: page 0 keeps the canonical
/// first-page url shape with no offset parameter at all.
pub open spec fn mojeek_request_spec(ctx: PageContextView) -> RequestSpecView {
    let qp = build_query_spec(mojeek_params(ctx));
    RequestSpecView {
        url: if ctx.page == 0 {
            "https://www.mojeek.com/search?q="@ + ctx.query + qp
        } else {
            "https://www.mojeek.com/search?q="@ + ctx.query + "&s="@ + dec_digits(
                mojeek_offset(ctx.page),
            ) + qp
        },
        headers: seq![
            ("User-Agent"@, ctx.user_agent),
            ("Referer"@, "https://google.com/"@),
            ("Content-Type"@, "application/x-www-form-urlencoded"@),
            ("Cookie"@, build_cookie_spec(mojeek_params(ctx))),
        ],
        offset: mojeek_offset(ctx.page),
    }
}

/// What Mojeek makes of a fetched page: the explicit marker text inside the
/// first no-result element short-circuits to `EmptyResultSet`; otherwise
/// the extracted items, in document order.
pub open spec fn mojeek_response_spec(body: Seq<char>) -> Result<
    Seq<(Seq<char>, crate::models::SearchResultView)>,
    EngineError,
> {
    let markers = marker_texts_of(body, mojeek_selectors().no_result);
    if markers.len() > 0 && contains_sub(markers[0], mojeek_no_result_marker()) {
        Err(EngineError::EmptyResultSet)
    } else {
        Ok(
            extraction_spec(
                raw_items_of(
                    body,
                    mojeek_selectors().result_item,
                    mojeek_selectors().title,
                    mojeek_selectors().link,
                    mojeek_selectors().description,
                ),
                ResultBuilderView::Mojeek,
            ),
        )
    }
}

/// A new Mojeek engine type, implementing the common provider capability
/// set over its own configured parser.
pub struct Mojeek {
    parser: SearchResultParser,
}

impl Mojeek {
    #[verifier::type_invariant]
    spec fn wf(self) -> bool {
        self.parser@ == mojeek_selectors()
    }

    /// Creates the Mojeek parser.
    pub fn new() -> (r: Result<Mojeek, ParserConfigError>)
        ensures
            r is Ok <==> parser_config_ok(mojeek_selectors()),
    {
        match SearchResultParser::new(
            ".result-col",
            ".results-standard li",
            "h2 > a.title",
            "a.ob",
            "p.s",
        ) {
            Ok(parser) => Ok(Mojeek { parser }),
            Err(e) => Err(e),
        }
    }

    /// Build the provider request for a page context.
    pub fn build_request(&self, ctx: &PageContext) -> (r: RequestSpec)
        ensures
            r@ == mojeek_request_spec(ctx@),
    {
        let mut params: Vec<(String, String)> = Vec::new();
        params.push((String::from_str("t"), String::from_str("10")));
        params.push((String::from_str("theme"), String::from_str("dark")));
        params.push((String::from_str("arc"), String::from_str("none")));
        params.push((String::from_str("date"), String::from_str("1")));
        params.push((String::from_str("cdate"), String::from_str("1")));
        params.push((String::from_str("tlen"), String::from_str("100")));
        params.push((String::from_str("ref"), String::from_str("1")));
        params.push((String::from_str("hp"), String::from_str("minimal")));
        params.push((String::from_str("lb"), String::from_str("en")));
        let names: Vec<&str> = vec![
            "Bing",
            "Brave",
            "DuckDuckGo",
            "Ecosia",
            "Google",
            "Lilo",
            "Metager",
            "Qwant",
            "Startpage",
            "Swisscows",
            "Yandex",
            "Yep",
            "You",
        ];
        proof {
            assert(names@.map_values(|p: &str| p@) =~= seq![
                "Bing"@,
                "Brave"@,
                "DuckDuckGo"@,
                "Ecosia"@,
                "Google"@,
                "Lilo"@,
                "Metager"@,
                "Qwant"@,
                "Startpage"@,
                "Swisscows"@,
                "Yandex"@,
                "Yep"@,
                "You"@,
            ]);
        }
        let qss = join(&names, "%2C");
        params.push((String::from_str("qss"), qss));
        let safe = if ctx.safe_search == 0 {
            String::from_str("0")
        } else {
            String::from_str("1")
        };
        params.push((String::from_str("safe"), safe));
        proof {
            assert(pair_views(params@) =~= mojeek_params(ctx@));
        }
        let query_params_string = build_query(&params);
        let offset: u64 = 10u64 * (ctx.page as u64) + 1;
        let mut url = String::from_str("https://www.mojeek.com/search?q=");
        url.append(ctx.query.as_str());
        if ctx.page != 0 {
            url.append("&s=");
            let start = u64_to_dec(offset);
            url.append(start.as_str());
        }
        url.append(query_params_string.as_str());
        let cookie_string = build_cookie(&params);
        let mut headers: Vec<(String, String)> = Vec::new();
        headers.push((String::from_str("User-Agent"), ctx.user_agent.clone()));
        headers.push((String::from_str("Referer"), String::from_str("https://google.com/")));
        headers.push(
            (
                String::from_str("Content-Type"),
                String::from_str("application/x-www-form-urlencoded"),
            ),
        );
        headers.push((String::from_str("Cookie"), cookie_string));
        let r = RequestSpec { url, headers, offset };
        proof {
            assert(r@.url =~= mojeek_request_spec(ctx@).url);
            assert(r@.headers =~= mojeek_request_spec(ctx@).headers);
        }
        r
    }

    /// Classify and extract a fetched result page.
    pub fn process_response(&self, body: &str) -> (r: Result<
        Vec<(String, SearchResult)>,
        EngineError,
    >)
        ensures
            response_view(r) == mojeek_response_spec(body@),
    {
        proof {
            use_type_invariant(&*self);
        }
        let markers = self.parser.find_no_result_markers(body);
        if markers.len() > 0 {
            proof {
                assert(markers@[0]@ == markers.deep_view()[0]);
            }
            if contains_str(markers[0].as_str(), "No pages found matching:") {
                return Err(EngineError::EmptyResultSet);
            }
        }
        Ok(self.parser.extract_results(body, &ResultBuilder::Mojeek))
    }
}


/// What the rc4 keystream makes of data under a key: a function of the
/// key and the data alone.
pub uninterp spec fn rc4_of(key: Seq<u8>, data: Seq<u8>) -> Seq<u8>;

/// Relies on rc4::Rc4 (new_from_slice, apply_keystream): a stream cipher
/// whose output depends on key and data alone and keeps the data's
/// length. Keys hold between one and 256 bytes.
#[verifier::external_body]
fn rc4_apply(key: &Vec<u8>, data: Vec<u8>) -> (r: Vec<u8>)
    requires
        1 <= key@.len() <= 256,
    ensures
        r@ == rc4_of(key@, data@),
        r@.len() == data@.len(),
{
    let mut cipher = rc4::Rc4::new_from_slice(key.as_slice()).unwrap();
    let mut buf = data;
    cipher.apply_keystream(&mut buf);
    buf
}

/// Relies on std::collections::hash_map::DefaultHasher: its algorithm is
/// documented as unspecified, so nothing is promised of the value.
#[verifier::external_body]
fn hash_bytes(input: &[u8]) -> u64 {
    let mut hasher = std::collections::hash_map::DefaultHasher::new();
    std::hash::Hash::hash(input, &mut hasher);
    std::hash::Hasher::finish(&hasher)
}

/// Sixteen key bytes drawn from overlapping four-bit windows of a hash
/// value, each masked to its low byte.
pub open spec fn rc4_key_material(hash_value: u64) -> Seq<u8> {
    Seq::new(16, |i: int| ((hash_value >> ((i * 4) as u64)) & 0xFF) as u8)
}

/// The session key for a hash value and the input bytes: the key material,
/// then the input reversed with each byte masked, the whole cut or padded
/// to sixteen bytes.
pub open spec fn rc4_session_key(hash_value: u64, input: Seq<u8>) -> Seq<u8> {
    let reversed = Seq::new(input.len(), |i: int| input[input.len() - 1 - i] ^ 0x5A);
    let combined = rc4_key_material(hash_value) + reversed;
    let cut = if combined.len() > 16 {
        combined.take(16)
    } else {
        combined
    };
    if cut.len() < 16 {
        cut + Seq::new((16 - cut.len()) as nat, |i: int| 0u8)
    } else {
        cut
    }
}

fn session_key(hash_value: u64, input: &[u8]) -> (r: Vec<u8>)
    ensures
        r@ == rc4_session_key(hash_value, input@),
        r@.len() == 16,
{
    let mut combined: Vec<u8> = Vec::new();
    let mut i: usize = 0;
    while i < 16
        invariant
            0 <= i <= 16,
            combined@.len() == i,
            forall|k: int|
                0 <= k < i ==> combined@[k] == ((hash_value >> ((k * 4) as u64)) & 0xFF) as u8,
        decreases 16 - i,
    {
        let shift: u64 = (i as u64) * 4;
        let masked: u64 = (hash_value >> shift) & 0xFF;
        proof {
            assert((hash_value >> shift) & 0xFF <= 0xFF) by (bit_vector);
        }
        combined.push(masked as u8);
        i = i + 1;
    }
    let n = input.len();
    let mut j: usize = 0;
    while j < n
        invariant
            0 <= j <= n,
            n == input@.len(),
            combined@.len() == 16 + j,
            forall|k: int|
                0 <= k < 16 ==> combined@[k] == ((hash_value >> ((k * 4) as u64)) & 0xFF) as u8,
            forall|k: int| 0 <= k < j ==> #[trigger] combined@[16 + k] == (input@[n - 1 - k] ^ 0x5A),
        decreases n - j,
    {
        let b = input[n - 1 - j] ^ 0x5A;
        combined.push(b);
        j = j + 1;
    }
    while combined.len() > 16
        invariant
            combined@.len() >= 16,
            forall|k: int|
                0 <= k < 16 ==> combined@[k] == ((hash_value >> ((k * 4) as u64)) & 0xFF) as u8,
        decreases combined@.len(),
    {
        combined.pop();
    }
    proof {
        assert(combined@ =~= rc4_session_key(hash_value, input@));
    }
    combined
}

/// Derives a temporary session key from the input bytes and applies the
/// cipher's keystream to a fixed buffer. The hash underneath is
/// unspecified, so the result is pinned only up to the hash value.
pub fn derive_rc4_session_key(input: &[u8]) -> (r: Vec<u8>)
    ensures
        exists|h: u64|
            r@ == rc4_of(
                rc4_session_key(h, input@),
                encode_utf8("temporary buffer"@),
            ),
        r@.len() == encode_utf8("temporary buffer"@).len(),
{
    let hash_value = hash_bytes(input);
    let key = session_key(hash_value, input);
    let data = "temporary buffer".as_bytes_vec();
    let out = rc4_apply(&key, data);
    proof {
        assert(out@ == rc4_of(
            rc4_session_key(hash_value, input@),
            encode_utf8("temporary buffer"@),
        ));
    }
    out
}

} // verus!
