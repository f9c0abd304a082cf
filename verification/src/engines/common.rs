//! Common request-construction helpers shared by the providers: a query
//! string fragment and a cookie string over the same ordered pair list.
use vstd::prelude::*;
use vstd::string::*;

use crate::models::pair_views;

verus! {

/// The query fragment one pair contributes: `&k=v`.
pub open spec fn query_fragment(p: (Seq<char>, Seq<char>)) -> Seq<char> {
    "&"@ + p.0 + "="@ + p.1
}

/// The whole query fragment: `&k1=v1&k2=v2...`, in input order, with no
/// leading `?` and no encoding applied.
pub open spec fn build_query_spec(ps: Seq<(Seq<char>, Seq<char>)>) -> Seq<char>
    decreases ps.len(),
{
    if ps.len() == 0 {
        Seq::empty()
    } else {
        build_query_spec(ps.drop_last()) + query_fragment(ps.last())
    }
}

/// The cookie fragment one pair contributes: `k=v; `.
pub open spec fn cookie_fragment(p: (Seq<char>, Seq<char>)) -> Seq<char> {
    p.0 + "="@ + p.1 + "; "@
}

/// The whole cookie string: `k1=v1; k2=v2; `, in input order, trailing
/// separator included.
pub open spec fn build_cookie_spec(ps: Seq<(Seq<char>, Seq<char>)>) -> Seq<char>
    decreases ps.len(),
{
    if ps.len() == 0 {
        Seq::empty()
    } else {
        build_cookie_spec(ps.drop_last()) + cookie_fragment(ps.last())
    }
}

/// Build a query from a list of key value pairs.
pub fn build_query(query_params: &Vec<(String, String)>) -> (r: String)
    ensures
        r@ == build_query_spec(pair_views(query_params@)),
{
    let ghost views = pair_views(query_params@);
    let mut query_params_string = String::new();
    let mut i: usize = 0;
    while i < query_params.len()
        invariant
            0 <= i <= query_params@.len(),
            views == pair_views(query_params@),
            views.len() == query_params@.len(),
            query_params_string@ == build_query_spec(views.take(i as int)),
        decreases query_params@.len() - i,
    {
        query_params_string.append("&");
        query_params_string.append(query_params[i].0.as_str());
        query_params_string.append("=");
        query_params_string.append(query_params[i].1.as_str());
        proof {
            assert(views.take(i + 1).drop_last() =~= views.take(i as int));
            assert(views.take(i + 1).last() == views[i as int]);
            assert(query_params_string@ =~= build_query_spec(views.take(i + 1)));
        }
        i = i + 1;
    }
    proof {
        assert(views.take(views.len() as int) =~= views);
    }
    query_params_string
}

/// Build a cookie from a list of key value pairs.
pub fn build_cookie(cookie_params: &Vec<(String, String)>) -> (r: String)
    ensures
        r@ == build_cookie_spec(pair_views(cookie_params@)),
{
    let ghost views = pair_views(cookie_params@);
    let mut cookie_string = String::new();
    let mut i: usize = 0;
    while i < cookie_params.len()
        invariant
            0 <= i <= cookie_params@.len(),
            views == pair_views(cookie_params@),
            views.len() == cookie_params@.len(),
            cookie_string@ == build_cookie_spec(views.take(i as int)),
        decreases cookie_params@.len() - i,
    {
        cookie_string.append(cookie_params[i].0.as_str());
        cookie_string.append("=");
        cookie_string.append(cookie_params[i].1.as_str());
        cookie_string.append("; ");
        proof {
            assert(views.take(i + 1).drop_last() =~= views.take(i as int));
            assert(views.take(i + 1).last() == views[i as int]);
            assert(cookie_string@ =~= build_cookie_spec(views.take(i + 1)));
        }
        i = i + 1;
    }
    proof {
        assert(views.take(views.len() as int) =~= views);
    }
    cookie_string
}

/// The length of the query fragment over the first `i` pairs: each pair
/// contributes `2 + len(k) + len(v)` characters.
pub open spec fn query_len(ps: Seq<(Seq<char>, Seq<char>)>) -> nat
    decreases ps.len(),
{
    if ps.len() == 0 {
        0
    } else {
        query_len(ps.drop_last()) + 2 + ps.last().0.len() + ps.last().1.len()
    }
}

/// The length of the cookie string: each pair contributes
/// `3 + len(k) + len(v)` characters.
pub open spec fn cookie_len(ps: Seq<(Seq<char>, Seq<char>)>) -> nat
    decreases ps.len(),
{
    if ps.len() == 0 {
        0
    } else {
        cookie_len(ps.drop_last()) + 3 + ps.last().0.len() + ps.last().1.len()
    }
}

/// For every ordered pair sequence, the query fragment's length is the sum
/// of `2 + len(k) + len(v)` over the pairs (and the empty sequence gives the
/// empty string).
pub proof fn lemma_build_query_length(ps: Seq<(Seq<char>, Seq<char>)>)
    ensures
        build_query_spec(ps).len() == query_len(ps),
    decreases ps.len(),
{
    reveal_strlit("&");
    reveal_strlit("=");
    if ps.len() > 0 {
        lemma_build_query_length(ps.drop_last());
    }
}

/// For every ordered pair sequence, the cookie string's length is the sum
/// of `3 + len(k) + len(v)` over the pairs.
pub proof fn lemma_build_cookie_length(ps: Seq<(Seq<char>, Seq<char>)>)
    ensures
        build_cookie_spec(ps).len() == cookie_len(ps),
    decreases ps.len(),
{
    reveal_strlit("=");
    reveal_strlit("; ");
    if ps.len() > 0 {
        lemma_build_cookie_length(ps.drop_last());
    }
}

/// Offsets into the query string grow with the pair index: the output keeps
/// the input order.
pub proof fn lemma_query_offsets_grow(ps: Seq<(Seq<char>, Seq<char>)>, i: int, j: int)
    requires
        0 <= i <= j <= ps.len(),
    ensures
        query_len(ps.take(i)) <= query_len(ps.take(j)),
    decreases j - i,
{
    if i < j {
        lemma_query_offsets_grow(ps, i, j - 1);
        assert(ps.take(j).drop_last() =~= ps.take(j - 1));
    }
}

/// For every ordered pair sequence, the pair at index `i` appears in the
/// query output as the fragment `&k=v`, at the offset that the lengths of
/// the fragments before it determine: the output preserves the input order.
pub proof fn lemma_build_query_order(ps: Seq<(Seq<char>, Seq<char>)>, i: int)
    requires
        0 <= i < ps.len(),
    ensures
        query_len(ps.take(i)) + query_fragment(ps[i]).len() <= build_query_spec(ps).len(),
        build_query_spec(ps).subrange(
            query_len(ps.take(i)) as int,
            query_len(ps.take(i)) + query_fragment(ps[i]).len() as int,
        ) == query_fragment(ps[i]),
    decreases ps.len(),
{
    reveal_strlit("&");
    reveal_strlit("=");
    lemma_build_query_length(ps);
    lemma_build_query_length(ps.take(i));
    if i == ps.len() - 1 {
        assert(ps.drop_last() =~= ps.take(i));
        assert(build_query_spec(ps).subrange(
            query_len(ps.take(i)) as int,
            query_len(ps.take(i)) + query_fragment(ps[i]).len() as int,
        ) =~= query_fragment(ps[i]));
    } else {
        lemma_build_query_order(ps.drop_last(), i);
        lemma_build_query_length(ps.drop_last());
        lemma_query_offsets_grow(ps.drop_last(), i + 1, ps.len() - 1);
        assert(ps.drop_last().take(i) =~= ps.take(i));
        assert(ps.drop_last().take(i + 1) =~= ps.take(i + 1));
        assert(ps.take(i + 1).drop_last() =~= ps.take(i));
        assert(ps.take(i + 1).last() == ps[i]);
        assert(query_len(ps.take(i)) + query_fragment(ps[i]).len() == query_len(ps.take(i + 1)));
        assert(build_query_spec(ps).subrange(
            query_len(ps.take(i)) as int,
            query_len(ps.take(i)) + query_fragment(ps[i]).len() as int,
        ) =~= build_query_spec(ps.drop_last()).subrange(
            query_len(ps.take(i)) as int,
            query_len(ps.take(i)) + query_fragment(ps[i]).len() as int,
        ));
    }
}

/// Offsets into the cookie string grow with the pair index.
pub proof fn lemma_cookie_offsets_grow(ps: Seq<(Seq<char>, Seq<char>)>, i: int, j: int)
    requires
        0 <= i <= j <= ps.len(),
    ensures
        cookie_len(ps.take(i)) <= cookie_len(ps.take(j)),
    decreases j - i,
{
    if i < j {
        lemma_cookie_offsets_grow(ps, i, j - 1);
        assert(ps.take(j).drop_last() =~= ps.take(j - 1));
    }
}

/// For every ordered pair sequence, the pair at index `i` appears in the
/// cookie output as the fragment `k=v; `, at the offset that the lengths of
/// the fragments before it determine: each `k=v;` occurs in input order.
pub proof fn lemma_build_cookie_order(ps: Seq<(Seq<char>, Seq<char>)>, i: int)
    requires
        0 <= i < ps.len(),
    ensures
        cookie_len(ps.take(i)) + cookie_fragment(ps[i]).len() <= build_cookie_spec(ps).len(),
        build_cookie_spec(ps).subrange(
            cookie_len(ps.take(i)) as int,
            cookie_len(ps.take(i)) + cookie_fragment(ps[i]).len() as int,
        ) == cookie_fragment(ps[i]),
    decreases ps.len(),
{
    reveal_strlit("=");
    reveal_strlit("; ");
    lemma_build_cookie_length(ps);
    lemma_build_cookie_length(ps.take(i));
    if i == ps.len() - 1 {
        assert(ps.drop_last() =~= ps.take(i));
        assert(build_cookie_spec(ps).subrange(
            cookie_len(ps.take(i)) as int,
            cookie_len(ps.take(i)) + cookie_fragment(ps[i]).len() as int,
        ) =~= cookie_fragment(ps[i]));
    } else {
        lemma_build_cookie_order(ps.drop_last(), i);
        lemma_build_cookie_length(ps.drop_last());
        lemma_cookie_offsets_grow(ps.drop_last(), i + 1, ps.len() - 1);
        assert(ps.drop_last().take(i) =~= ps.take(i));
        assert(ps.drop_last().take(i + 1) =~= ps.take(i + 1));
        assert(ps.take(i + 1).drop_last() =~= ps.take(i));
        assert(ps.take(i + 1).last() == ps[i]);
        assert(cookie_len(ps.take(i)) + cookie_fragment(ps[i]).len() == cookie_len(
            ps.take(i + 1),
        ));
        assert(build_cookie_spec(ps).subrange(
            cookie_len(ps.take(i)) as int,
            cookie_len(ps.take(i)) + cookie_fragment(ps[i]).len() as int,
        ) =~= build_cookie_spec(ps.drop_last()).subrange(
            cookie_len(ps.take(i)) as int,
            cookie_len(ps.take(i)) + cookie_fragment(ps[i]).len() as int,
        ));
    }
}

/// For every non-empty ordered pair sequence, the cookie string ends with
/// `"; "` after the last pair.
pub proof fn lemma_build_cookie_trailer(ps: Seq<(Seq<char>, Seq<char>)>)
    requires
        ps.len() > 0,
    ensures
        build_cookie_spec(ps).len() >= 2,
        build_cookie_spec(ps).subrange(
            build_cookie_spec(ps).len() - 2,
            build_cookie_spec(ps).len() as int,
        ) == "; "@,
{
    reveal_strlit("; ");
    reveal_strlit("=");
    lemma_build_cookie_length(ps);
    assert(build_cookie_spec(ps).subrange(
        build_cookie_spec(ps).len() - 2,
        build_cookie_spec(ps).len() as int,
    ) =~= "; "@);
}

} // verus!
