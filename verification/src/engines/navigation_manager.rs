//! The normalizing steps a redirect target passes through before the
//! response would be sent. Building and sending the response itself stays
//! outside the library.
use vstd::prelude::*;
use vstd::string::*;

use crate::text::contains_str;
use crate::text::contains_sub;
use crate::text::ends_with;
use crate::text::ends_with_spec;
use crate::text::find_char;
use crate::text::index_of_first;
use crate::text::replace;
use crate::text::replace_spec;
use crate::text::starts_with;
use crate::text::starts_with_spec;
use crate::text::trim;
use crate::text::trim_spec;
use crate::text::trim_start_char_spec;
use crate::text::trim_start_matches_char;

verus! {

/// The target trimmed, its spaces removed, given a scheme when it names
/// none, cut before the first fragment marker, and closed with a slash.
pub open spec fn parse_url_structure_spec(input: Seq<char>) -> Seq<char> {
    let url = replace_spec(trim_spec(input), " "@, ""@);
    let schemed = if starts_with_spec(url, "http"@) {
        url
    } else {
        "https://"@ + url
    };
    let idx = index_of_first(schemed, '#');
    let cut = if idx >= 0 {
        schemed.take(idx)
    } else {
        schemed
    };
    if ends_with_spec(cut, "/"@) {
        cut
    } else {
        cut + "/"@
    }
}

/// Parse and normalize a target's structure.
pub fn parse_url_structure(input: String) -> (r: String)
    ensures
        r@ == parse_url_structure_spec(input@),
{
    proof {
        reveal_strlit(" ");
    }
    let url = replace(trim(input.as_str()), " ", "");
    let schemed = if starts_with(url.as_str(), "http") {
        url
    } else {
        let mut p = String::from_str("https://");
        p.append(url.as_str());
        p
    };
    let mut cut = match find_char(schemed.as_str(), '#') {
        Some(idx) => String::from_str(schemed.as_str().substring_char(0, idx)),
        None => schemed,
    };
    if !ends_with(cut.as_str(), "/") {
        cut.append("/");
    }
    cut
}

/// The target with a tracking parameter added when it has none, a referrer
/// parameter added when it has none, and doubled ampersands collapsed once.
pub open spec fn enrich_url_params_spec(url: Seq<char>) -> Seq<char> {
    let with_track = if contains_sub(url, "?track="@) {
        url
    } else if contains_sub(url, "?"@) {
        url + "&track=1"@
    } else {
        url + "?track=1"@
    };
    let with_ref = if contains_sub(with_track, "ref="@) {
        with_track
    } else {
        with_track + "&ref=websurfx"@
    };
    replace_spec(with_ref, "&&"@, "&"@)
}

/// Enrich the target with parameters.
pub fn enrich_url_params(url: String) -> (r: String)
    ensures
        r@ == enrich_url_params_spec(url@),
{
    proof {
        reveal_strlit("&&");
    }
    let mut u = url;
    if !contains_str(u.as_str(), "?track=") {
        if contains_str(u.as_str(), "?") {
            u.append("&track=1");
        } else {
            u.append("?track=1");
        }
    }
    if !contains_str(u.as_str(), "ref=") {
        u.append("&ref=websurfx");
    }
    replace(u.as_str(), "&&", "&")
}

/// The target with doubled slashes collapsed once, the scheme re-anchored
/// when the collapse broke it, and spaces removed.
pub open spec fn extract_final_url_spec(url: Seq<char>) -> Seq<char> {
    let collapsed = replace_spec(url, "//"@, "/"@);
    let anchored = if starts_with_spec(collapsed, "https:/"@) {
        collapsed
    } else {
        "https:/"@ + trim_start_char_spec(collapsed, '/')
    };
    replace_spec(anchored, " "@, ""@)
}

/// Extract and fix the final target.
pub fn extract_final_url(url: String) -> (r: String)
    ensures
        r@ == extract_final_url_spec(url@),
{
    proof {
        reveal_strlit("//");
        reveal_strlit(" ");
    }
    let collapsed = replace(url.as_str(), "//", "/");
    let anchored = if starts_with(collapsed.as_str(), "https:/") {
        collapsed
    } else {
        let mut p = String::from_str("https:/");
        p.append(trim_start_matches_char(collapsed.as_str(), '/'));
        p
    };
    replace(anchored.as_str(), " ", "")
}

} // verus!
