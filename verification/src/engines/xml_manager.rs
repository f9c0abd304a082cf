//! The normalizing steps a path expression passes through before it is
//! evaluated over a document. The evaluation itself stays outside the
//! library.
use vstd::prelude::*;
use vstd::string::*;

use crate::text::contains_str;
use crate::text::contains_sub;
use crate::text::find_char;
use crate::text::index_of_first;
use crate::text::replace;
use crate::text::replace_spec;
use crate::text::starts_with;
use crate::text::starts_with_spec;
use crate::text::trim;
use crate::text::trim_spec;

verus! {

/// The expression trimmed, its spaces removed, rooted when it is relative,
/// and cut before the first fragment marker.
pub open spec fn parse_xpath_expr_spec(input: Seq<char>) -> Seq<char> {
    let expr = replace_spec(trim_spec(input), " "@, ""@);
    let rooted = if starts_with_spec(expr, "/"@) {
        expr
    } else {
        "/root/"@ + expr
    };
    let idx = index_of_first(rooted, '#');
    if idx >= 0 {
        rooted.take(idx)
    } else {
        rooted
    }
}

/// Parse and normalize a path expression.
pub fn parse_xpath_expr(input: String) -> (r: String)
    ensures
        r@ == parse_xpath_expr_spec(input@),
{
    proof {
        reveal_strlit(" ");
    }
    let expr = replace(trim(input.as_str()), " ", "");
    let rooted = if starts_with(expr.as_str(), "/") {
        expr
    } else {
        let mut prefixed = String::from_str("/root/");
        prefixed.append(expr.as_str());
        prefixed
    };
    match find_char(rooted.as_str(), '#') {
        Some(idx) => {
            let cut = rooted.as_str().substring_char(0, idx);
            String::from_str(cut)
        },
        None => rooted,
    }
}

/// The expression with a book step appended when it names none, and an id
/// filter appended when it has none.
pub open spec fn enrich_xpath_context_spec(expr: Seq<char>) -> Seq<char> {
    let a = if contains_sub(expr, "book"@) {
        expr
    } else {
        expr + "/book"@
    };
    if contains_sub(a, "[@id]"@) {
        a
    } else {
        a + "[@id]"@
    }
}

/// Enrich the expression's context.
pub fn enrich_xpath_context(expr: String) -> (r: String)
    ensures
        r@ == enrich_xpath_context_spec(expr@),
{
    let mut enriched = expr;
    if !contains_str(enriched.as_str(), "book") {
        enriched.append("/book");
    }
    if !contains_str(enriched.as_str(), "[@id]") {
        enriched.append("[@id]");
    }
    enriched
}

/// The expression with doubled slashes collapsed once and spaces removed.
pub open spec fn extract_final_xpath_spec(expr: Seq<char>) -> Seq<char> {
    replace_spec(replace_spec(expr, "//"@, "/"@), " "@, ""@)
}

/// Extract and format the final expression.
pub fn extract_final_xpath(expr: String) -> (r: String)
    ensures
        r@ == extract_final_xpath_spec(expr@),
{
    proof {
        reveal_strlit("//");
        reveal_strlit(" ");
    }
    let collapsed = replace(expr.as_str(), "//", "/");
    replace(collapsed.as_str(), " ", "")
}

} // verus!
