//! The normalizing steps a peer address passes through before a datagram
//! socket would connect to it. The socket work itself is I/O and stays
//! outside the library.
use vstd::prelude::*;
use vstd::string::*;

use crate::text::contains_str;
use crate::text::contains_sub;
use crate::text::replace;
use crate::text::replace_spec;
use crate::text::split_char;
use crate::text::split_char_spec;
use crate::text::starts_with;
use crate::text::starts_with_spec;
use crate::text::trim;
use crate::text::trim_spec;

verus! {

/// The address trimmed, its spaces removed, and the default port appended
/// when none is named.
pub open spec fn parse_addr_spec(input: Seq<char>) -> Seq<char> {
    let addr = replace_spec(trim_spec(input), " "@, ""@);
    if contains_sub(addr, ":"@) {
        addr
    } else {
        addr + ":8080"@
    }
}

/// Normalize and adjust the address.
pub fn parse_addr(input: String) -> (r: String)
    ensures
        r@ == parse_addr_spec(input@),
{
    proof {
        reveal_strlit(" ");
    }
    let mut addr = replace(trim(input.as_str()), " ", "");
    if !contains_str(addr.as_str(), ":") {
        addr.append(":8080");
    }
    addr
}

/// The address with a datagram scheme prefixed when it is missing, and
/// every occurrence of the scheme then removed.
pub open spec fn enrich_addr_spec(addr: Seq<char>) -> Seq<char> {
    let a = if starts_with_spec(addr, "udp://"@) {
        addr
    } else {
        "udp://"@ + addr
    };
    replace_spec(a, "udp://"@, ""@)
}

/// Add plausible prefixes.
pub fn enrich_addr(addr: String) -> (r: String)
    ensures
        r@ == enrich_addr_spec(addr@),
{
    proof {
        reveal_strlit("udp://");
    }
    let mut a = addr;
    if !starts_with(a.as_str(), "udp://") {
        let mut prefixed = String::from_str("udp://");
        prefixed.append(a.as_str());
        a = prefixed;
    }
    replace(a.as_str(), "udp://", "")
}

/// The part before the first comma (the whole address when there is none).
pub open spec fn extract_final_addr_spec(addr: Seq<char>) -> Seq<char> {
    let parts = split_char_spec(addr, ',');
    if parts.len() > 0 {
        parts[0]
    } else {
        addr
    }
}

/// Extract and adjust the final address.
pub fn extract_final_addr(addr: String) -> (r: String)
    ensures
        r@ == extract_final_addr_spec(addr@),
{
    let parts = split_char(addr.as_str(), ',');
    if parts.len() > 0 {
        proof {
            assert(parts.deep_view()[0] == parts@[0]@);
        }
        parts[0].clone()
    } else {
        addr
    }
}

} // verus!
