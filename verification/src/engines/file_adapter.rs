//! The normalizing steps an asset path passes through before a file is
//! looked up. Opening the file itself is I/O and stays outside the library.
use vstd::prelude::*;
use vstd::string::*;

use crate::text::ends_with;
use crate::text::ends_with_spec;
use crate::text::replace;
use crate::text::replace_spec;
use crate::text::split_char;
use crate::text::split_char_spec;

verus! {

/// The path with backslashes turned into forward slashes.
pub open spec fn resolve_asset_path_spec(input: Seq<char>) -> Seq<char> {
    replace_spec(input, "\\"@, "/"@)
}

/// Resolve an asset path.
pub fn resolve_asset_path(input: String) -> (r: String)
    ensures
        r@ == resolve_asset_path_spec(input@),
{
    proof {
        reveal_strlit("\\");
    }
    replace(input.as_str(), "\\", "/")
}

/// The resource id with the data suffix appended when it is missing.
pub open spec fn enrich_resource_id_spec(input: Seq<char>) -> Seq<char> {
    if ends_with_spec(input, ".data"@) {
        input
    } else {
        input + ".data"@
    }
}

/// Enrich a resource id.
pub fn enrich_resource_id(input: String) -> (r: String)
    ensures
        r@ == enrich_resource_id_spec(input@),
{
    let mut s = input;
    if !ends_with(s.as_str(), ".data") {
        s.append(".data");
    }
    s
}

/// The last slash-separated component, or the whole input when it holds no
/// slash.
pub open spec fn extract_final_token_spec(input: Seq<char>) -> Seq<char> {
    let parts = split_char_spec(input, '/');
    if parts.len() > 1 {
        parts.last()
    } else {
        input
    }
}

/// Extract the final token from a resource path.
pub fn extract_final_token(input: String) -> (r: String)
    ensures
        r@ == extract_final_token_spec(input@),
{
    let parts = split_char(input.as_str(), '/');
    if parts.len() > 1 {
        proof {
            assert(parts.deep_view().last() == parts@[parts@.len() - 1]@);
        }
        let last = parts.len() - 1;
        parts[last].clone()
    } else {
        input
    }
}

} // verus!
