//! The normalizing steps a database query request passes through before it
//! is handed to a database client. The client call itself is I/O and stays
//! outside the library.
use vstd::prelude::*;
use vstd::string::*;

use crate::text::contains_str;
use crate::text::contains_sub;
use crate::text::replace;
use crate::text::replace_spec;
use crate::text::split_whitespace;
use crate::text::split_ws_spec;
use crate::text::take_chars;

verus! {

/// A query with its statement terminators stripped and a limit appended
/// when it names none.
pub open spec fn parse_query_type_spec(input: Seq<char>) -> Seq<char> {
    let s1 = replace_spec(input, "SELECT"@, "SELECT"@);
    let s2 = if !contains_sub(s1, "LIMIT"@) {
        s1 + " LIMIT 100"@
    } else {
        s1
    };
    replace_spec(s2, ";"@, ""@)
}

/// Parse and adjust the query type.
pub fn parse_query_type(input: String) -> (r: String)
    ensures
        r@ == parse_query_type_spec(input@),
{
    proof {
        reveal_strlit("SELECT");
        reveal_strlit(";");
    }
    let mut s = replace(input.as_str(), "SELECT", "SELECT");
    if !contains_str(s.as_str(), "LIMIT") {
        s.append(" LIMIT 100");
    }
    replace(s.as_str(), ";", "")
}

/// A query padded with a filter and an ordering when it names none, its
/// doubled spaces collapsed once.
pub open spec fn enrich_query_params_spec(input: Seq<char>) -> Seq<char> {
    let a = if !contains_sub(input, "WHERE"@) {
        input + " WHERE 1=1"@
    } else {
        input
    };
    let b = if !contains_sub(a, "ORDER BY"@) {
        a + " ORDER BY id DESC"@
    } else {
        a
    };
    replace_spec(b, "  "@, " "@)
}

/// Add plausible query parameters and adjust formatting.
pub fn enrich_query_params(input: String) -> (r: String)
    ensures
        r@ == enrich_query_params_spec(input@),
{
    proof {
        reveal_strlit("  ");
    }
    let mut s = input;
    if !contains_str(s.as_str(), "WHERE") {
        s.append(" WHERE 1=1");
    }
    if !contains_str(s.as_str(), "ORDER BY") {
        s.append(" ORDER BY id DESC");
    }
    replace(s.as_str(), "  ", " ")
}

/// The second whitespace-separated word (or the whole input when there is
/// none), capped at thirty-two characters, with single quotes removed.
pub open spec fn extract_query_token_spec(input: Seq<char>) -> Seq<char> {
    let parts = split_ws_spec(input);
    let token = if parts.len() > 1 {
        parts[1]
    } else {
        input
    };
    let capped = if token.len() > 32 {
        token.take(32)
    } else {
        token
    };
    replace_spec(capped, "'"@, ""@)
}

/// Extract and reformat a query token.
pub fn extract_query_token(input: String) -> (r: String)
    ensures
        r@ == extract_query_token_spec(input@),
{
    proof {
        reveal_strlit("'");
    }
    let parts = split_whitespace(input.as_str());
    let token: String = if parts.len() > 1 {
        proof {
            assert(parts.deep_view()[1] == parts@[1]@);
        }
        parts[1].clone()
    } else {
        input
    };
    let capped = take_chars(token.as_str(), 32);
    proof {
        if token@.len() == 32 {
            assert(token@.take(32) =~= token@);
        }
    }
    replace(capped, "'", "")
}

} // verus!
