//! The Startpage-like provider: ten results per page with a zero-based
//! start offset that is always sent, a static preference cookie, and a
//! presence-only no-result marker.
use vstd::prelude::*;
use vstd::string::*;

use crate::engines::search_result_parser::extraction_spec;
use crate::engines::search_result_parser::marker_texts_of;
use crate::engines::search_result_parser::parser_config_ok;
use crate::engines::search_result_parser::raw_items_of;
use crate::engines::search_result_parser::response_view;
use crate::engines::search_result_parser::ResultBuilder;
use crate::engines::search_result_parser::ResultBuilderView;
use crate::engines::search_result_parser::SearchResultParser;
use crate::engines::search_result_parser::SearchResultParserView;
use crate::models::EngineError;
use crate::models::PageContext;
use crate::models::PageContextView;
use crate::models::ParserConfigError;
use crate::models::RequestSpec;
use crate::models::RequestSpecView;
use crate::models::SearchResult;
use crate::text::dec_digits;
use crate::text::join_sep;
use crate::text::join_strings;
use crate::text::replace;
use crate::text::replace_spec;
use crate::text::split_str;
use crate::text::split_str_spec;
use crate::text::take_chars;
use crate::text::trim;
use crate::text::trim_spec;
use crate::text::u64_to_dec;
use md4::Digest;
use vstd::utf8::encode_utf8;

verus! {

/// The five Startpage selectors.
pub open spec fn startpage_selectors() -> SearchResultParserView {
    SearchResultParserView {
        no_result: ".no-results"@,
        result_item: ".w-gl__result__main"@,
        title: ".w-gl__result-second-line-container>.w-gl__result-title>h3"@,
        link: ".w-gl__result-url"@,
        description: ".w-gl__description"@,
    }
}

/// The static preference cookie the provider requires.
pub open spec fn startpage_cookie() -> Seq<char> {
    "preferences=connect_to_serverEEE0N1Ndate_timeEEEworldN1Ndisable_family_filterEEE0N1Ndisable_open_in_new_windowEEE0N1Nenable_post_methodEEE1N1Nenable_proxy_safety_suggestEEE1N1Nenable_stay_controlEEE0N1Ninstant_answersEEE1N1Nlang_homepageEEEs%2Fnight%2FenN1NlanguageEEEenglishN1Nlanguage_uiEEEenglishN1Nnum_of_resultsEEE10N1Nsearch_results_regionEEEallN1NsuggestionsEEE1N1Nwt_unitEEEcelsius"@
}

/// Startpage counts from a zero-based offset, ten per page, and sends it on
/// every page, the first included.
pub open spec fn startpage_offset(page: nat) -> nat {
    10 * page
}

/// The request Startpage builds for a page context.
pub open spec fn startpage_request_spec(ctx: PageContextView) -> RequestSpecView {
    RequestSpecView {
        url: "https://startpage.com/do/dsearch?q="@ + ctx.query + "&num=10&start="@ + dec_digits(
            startpage_offset(ctx.page),
        ),
        headers: seq![
            ("User-Agent"@, ctx.user_agent),
            ("Referer"@, "https://google.com/"@),
            ("Content-Type"@, "application/x-www-form-urlencoded"@),
            ("Cookie"@, startpage_cookie()),
        ],
        offset: startpage_offset(ctx.page),
    }
}

/// What Startpage makes of a fetched page: any matched no-result element
/// short-circuits to `EmptyResultSet`; otherwise the extracted items.
pub open spec fn startpage_response_spec(body: Seq<char>) -> Result<
    Seq<(Seq<char>, crate::models::SearchResultView)>,
    EngineError,
> {
    if marker_texts_of(body, startpage_selectors().no_result).len() > 0 {
        Err(EngineError::EmptyResultSet)
    } else {
        Ok(
            extraction_spec(
                raw_items_of(
                    body,
                    startpage_selectors().result_item,
                    startpage_selectors().title,
                    startpage_selectors().link,
                    startpage_selectors().description,
                ),
                ResultBuilderView::Startpage,
            ),
        )
    }
}

/// A new Startpage engine type, implementing the common provider capability
/// set over its own configured parser.
pub struct Startpage {
    parser: SearchResultParser,
}

impl Startpage {
    #[verifier::type_invariant]
    spec fn wf(self) -> bool {
        self.parser@ == startpage_selectors()
    }

    /// Creates the Startpage parser.
    pub fn new() -> (r: Result<Startpage, ParserConfigError>)
        ensures
            r is Ok <==> parser_config_ok(startpage_selectors()),
    {
        match SearchResultParser::new(
            ".no-results",
            ".w-gl__result__main",
            ".w-gl__result-second-line-container>.w-gl__result-title>h3",
            ".w-gl__result-url",
            ".w-gl__description",
        ) {
            Ok(parser) => Ok(Startpage { parser }),
            Err(e) => Err(e),
        }
    }

    /// Build the provider request for a page context.
    pub fn build_request(&self, ctx: &PageContext) -> (r: RequestSpec)
        ensures
            r@ == startpage_request_spec(ctx@),
    {
        let offset: u64 = 10u64 * (ctx.page as u64);
        let mut url = String::from_str("https://startpage.com/do/dsearch?q=");
        url.append(ctx.query.as_str());
        url.append("&num=10&start=");
        let start = u64_to_dec(offset);
        url.append(start.as_str());
        let mut headers: Vec<(String, String)> = Vec::new();
        headers.push((String::from_str("User-Agent"), ctx.user_agent.clone()));
        headers.push((String::from_str("Referer"), String::from_str("https://google.com/")));
        headers.push(
            (
                String::from_str("Content-Type"),
                String::from_str("application/x-www-form-urlencoded"),
            ),
        );
        headers.push(
            (
                String::from_str("Cookie"),
                String::from_str(
                    "preferences=connect_to_serverEEE0N1Ndate_timeEEEworldN1Ndisable_family_filterEEE0N1Ndisable_open_in_new_windowEEE0N1Nenable_post_methodEEE1N1Nenable_proxy_safety_suggestEEE1N1Nenable_stay_controlEEE0N1Ninstant_answersEEE1N1Nlang_homepageEEEs%2Fnight%2FenN1NlanguageEEEenglishN1Nlanguage_uiEEEenglishN1Nnum_of_resultsEEE10N1Nsearch_results_regionEEEallN1NsuggestionsEEE1N1Nwt_unitEEEcelsius",
                ),
            ),
        );
        let r = RequestSpec { url, headers, offset };
        proof {
            assert(r@.url =~= startpage_request_spec(ctx@).url);
            assert(r@.headers =~= startpage_request_spec(ctx@).headers);
        }
        r
    }

    /// Classify and extract a fetched result page.
    pub fn process_response(&self, body: &str) -> (r: Result<
        Vec<(String, SearchResult)>,
        EngineError,
    >)
        ensures
            response_view(r) == startpage_response_spec(body@),
    {
        proof {
            use_type_invariant(&*self);
        }
        let markers = self.parser.find_no_result_markers(body);
        if markers.len() > 0 {
            return Err(EngineError::EmptyResultSet);
        }
        Ok(self.parser.extract_results(body, &ResultBuilder::Startpage))
    }
}


/// Relies on base64::encode and base64::decode: decoding what was just
/// encoded restores the bytes exactly, and reading valid UTF-8 bytes back
/// leniently keeps the text, so the composition hands the input through.
#[verifier::external_body]
fn base64_roundtrip(s: &str) -> (r: String)
    ensures
        r@ == s@,
{
    let encoded = base64::encode(s.as_bytes());
    let decoded = base64::decode(encoded).unwrap_or_default();
    String::from_utf8_lossy(&decoded).to_string()
}

/// What [`process_tainted`] produces from an input text: the staged,
/// truncated, marked and re-encoded payload, closing with the original.
pub open spec fn process_tainted_spec(input: Seq<char>) -> Seq<char> {
    let step1 = trim_spec(input) + "::stage1"@;
    let step2 = step1 + "-"@ + "[marker]"@;
    let taken = if step2.len() > 50 {
        step2.take(50)
    } else {
        step2
    };
    let inter = taken + input;
    let mutated = replace_spec(inter, "foo"@, "fooX"@);
    let expanded = "[EXP]"@ + mutated + "::END"@;
    let recombined = join_sep(split_str_spec(expanded, "--"@), "--"@);
    let suffix = dec_digits((encode_utf8(recombined).len() as usize) as nat) + "-"@ + "[LEN]"@;
    let with_meta = suffix + "||"@ + recombined;
    with_meta + "::ORIG::"@ + input
}

/// Processes incoming content through a series of transformations and
/// produces the payload text. Handing the payload on is left to the
/// caller.
pub fn process_tainted(input: String) -> (r: String)
    ensures
        r@ == process_tainted_spec(input@),
{
    proof {
        reveal_strlit("foo");
        reveal_strlit("--");
    }
    let orig = input.clone();
    let mut step2 = String::from_str(trim(input.as_str()));
    step2.append("::stage1");
    step2.append("-");
    step2.append("[marker]");
    let taken = take_chars(step2.as_str(), 50);
    proof {
        if step2@.len() == 50 {
            assert(step2@.take(50) =~= step2@);
        }
    }
    let mut inter = String::from_str(taken);
    inter.append(orig.as_str());
    let mutated = replace(inter.as_str(), "foo", "fooX");
    let mut expanded = String::from_str("[EXP]");
    expanded.append(mutated.as_str());
    expanded.append("::END");
    let parts = split_str(expanded.as_str(), "--");
    let recombined = join_strings(&parts, "--");
    let byte_len = recombined.as_str().len();
    let mut with_meta = u64_to_dec(byte_len as u64);
    with_meta.append("-");
    with_meta.append("[LEN]");
    with_meta.append("||");
    with_meta.append(recombined.as_str());
    let mut out = base64_roundtrip(with_meta.as_str());
    out.append("::ORIG::");
    out.append(orig.as_str());
    proof {
        assert(out@ =~= process_tainted_spec(input@));
    }
    out
}

/// What an md4 digest of some bytes is. A function of the bytes alone;
/// writing the algorithm out here would hold nobody to the outside code.
pub uninterp spec fn md4_of(data: Seq<u8>) -> Seq<u8>;

/// Relies on md4::Md4 (through the digest traits): a sixteen-byte digest
/// that depends on the input bytes alone.
#[verifier::external_body]
fn md4_digest(data: &Vec<u8>) -> (r: Vec<u8>)
    ensures
        r@ == md4_of(data@),
        r@.len() == 16,
{
    md4::Md4::digest(data.as_slice()).to_vec()
}

/// The mixed buffer a digest input is derived from: the input's byte count
/// as four little-endian bytes, then the input, each byte then shifted by
/// a position-dependent amount and rotated.
pub open spec fn mixed_input_spec(input: Seq<u8>) -> Seq<u8> {
    let prefixed = seq![
        (input.len() % 256) as u8,
        ((input.len() / 256) % 256) as u8,
        ((input.len() / 65536) % 256) as u8,
        ((input.len() / 16777216) % 256) as u8,
    ] + input;
    Seq::new(
        prefixed.len(),
        |i: int|
            rot8(
                vstd::wrapping::u8_specs::wrapping_add(
                    prefixed[i],
                    vstd::wrapping::u8_specs::wrapping_mul((i % 256) as u8, 31),
                ),
                (i % 7) as u32,
            ),
    )
}

/// A byte rotated left by fewer than eight bit positions.
pub open spec fn rot8(x: u8, k: u32) -> u8 {
    if k == 0 {
        x
    } else {
        (x << k) | (x >> (8 - k))
    }
}

fn rotate_byte_left(x: u8, k: u32) -> (r: u8)
    requires
        k < 8,
    ensures
        r == rot8(x, k),
{
    if k == 0 {
        x
    } else {
        (x << k) | (x >> (8 - k))
    }
}

/// Derives a value from input bytes and computes an md4 digest of it.
pub fn compute_legacy_md4_hash(input: &[u8]) -> (r: Vec<u8>)
    requires
        input@.len() <= u32::MAX,
    ensures
        r@ == md4_of(mixed_input_spec(input@)),
        r@.len() == 16,
{
    let n: u32 = input.len() as u32;
    let mut mixed: Vec<u8> = Vec::new();
    mixed.push((n & 0xFF) as u8);
    mixed.push(((n >> 8) & 0xFF) as u8);
    mixed.push(((n >> 16) & 0xFF) as u8);
    mixed.push(((n >> 24) & 0xFF) as u8);
    let mut i: usize = 0;
    while i < input.len()
        invariant
            0 <= i <= input@.len(),
            input@.len() <= u32::MAX,
            mixed@.len() == i + 4,
            mixed@ =~= (seq![
                ((n & 0xFF) as u8),
                (((n >> 8) & 0xFF) as u8),
                (((n >> 16) & 0xFF) as u8),
                (((n >> 24) & 0xFF) as u8),
            ] + input@.take(i as int)),
            n == input@.len(),
        decreases input@.len() - i,
    {
        let b = input[i];
        mixed.push(b);
        proof {
            assert(input@.take(i + 1) =~= input@.take(i as int).push(input@[i as int]));
        }
        i = i + 1;
    }
    proof {
        assert(input@.take(input@.len() as int) =~= input@);
        assert((n & 0xFF) as u8 == (n % 256) as u8 && ((n >> 8) & 0xFF) as u8 == ((n / 256)
            % 256) as u8 && ((n >> 16) & 0xFF) as u8 == ((n / 65536) % 256) as u8 && ((n >> 24)
            & 0xFF) as u8 == ((n / 16777216) % 256) as u8) by (bit_vector);
        assert(n == input@.len());
    }
    let ghost prefixed = mixed@;
    let mut j: usize = 0;
    while j < mixed.len()
        invariant
            0 <= j <= mixed@.len(),
            mixed@.len() == prefixed.len(),
            forall|k: int|
                j <= k < prefixed.len() ==> mixed@[k] == prefixed[k],
            forall|k: int|
                0 <= k < j ==> mixed@[k] == rot8(
                    vstd::wrapping::u8_specs::wrapping_add(
                        prefixed[k],
                        vstd::wrapping::u8_specs::wrapping_mul((k % 256) as u8, 31),
                    ),
                    (k % 7) as u32,
                ),
        decreases mixed@.len() - j,
    {
        let b = mixed[j];
        let factor: u8 = (j % 256) as u8;
        let shifted = b.wrapping_add(factor.wrapping_mul(31));
        let rotated = rotate_byte_left(shifted, (j % 7) as u32);
        mixed.set(j, rotated);
        j = j + 1;
    }
    proof {
        assert(mixed@ =~= mixed_input_spec(input@));
    }
    md4_digest(&mixed)
}

} // verus!
