//! The provider registry and dispatcher: one outcome per enabled provider,
//! collected independently, merged deterministically in registration order,
//! with equal-url results folded into one entry whose tag sets are unioned.
use vstd::prelude::*;
use vstd::string::*;

use crate::engines::mojeek::mojeek_request_spec;
use crate::engines::mojeek::mojeek_response_spec;
use crate::engines::mojeek::Mojeek;
use crate::engines::search_result_parser::response_view;
use crate::engines::startpage::startpage_request_spec;
use crate::engines::startpage::startpage_response_spec;
use crate::engines::startpage::Startpage;
use crate::engines::wikipedia::wikipedia_request_spec;
use crate::engines::wikipedia::wikipedia_response_spec;
use crate::engines::wikipedia::Wikipedia;
use crate::engines::wikipedia::WikipediaView;
use crate::engines::yahoo::yahoo_request_spec;
use crate::engines::yahoo::yahoo_response_spec;
use crate::engines::yahoo::Yahoo;
use crate::models::EngineError;
use crate::models::PageContext;
use crate::models::PageContextView;
use crate::models::RequestSpec;
use crate::models::RequestSpecView;
use crate::models::SearchResult;
use crate::models::SearchResultView;

verus! {

/// The views of a sequence of results.
pub open spec fn results_view(s: Seq<SearchResult>) -> Seq<SearchResultView> {
    s.map_values(|r: SearchResult| r@)
}

/// The first index whose entry reports the url, or -1.
pub open spec fn find_url(acc: Seq<SearchResultView>, url: Seq<char>) -> int
    decreases acc.len(),
{
    if acc.len() == 0 {
        -1
    } else if acc.first().url == url {
        0
    } else {
        let rest = find_url(acc.drop_first(), url);
        if rest < 0 {
            -1
        } else {
            rest + 1
        }
    }
}

/// The tag list with every tag of `t` appended that it does not already
/// hold, in `t`'s order: a union that keeps first-seen order.
pub open spec fn add_tags(e: Seq<Seq<char>>, t: Seq<Seq<char>>) -> Seq<Seq<char>>
    decreases t.len(),
{
    if t.len() == 0 {
        e
    } else {
        add_tags(
            if e.contains(t.first()) {
                e
            } else {
                e.push(t.first())
            },
            t.drop_first(),
        )
    }
}

/// Merge one result into the accumulator: a new url is appended; a url
/// already present has its entry's tag set unioned with the new result's
/// tags, everything else about the entry unchanged.
pub open spec fn merge_into(acc: Seq<SearchResultView>, r: SearchResultView) -> Seq<
    SearchResultView,
> {
    let j = find_url(acc, r.url);
    if j < 0 {
        acc.push(r)
    } else {
        acc.update(
            j,
            SearchResultView {
                title: acc[j].title,
                url: acc[j].url,
                description: acc[j].description,
                engines: add_tags(acc[j].engines, r.engines),
            },
        )
    }
}

/// Merge a whole sequence of results, left to right.
pub open spec fn merge_all(rs: Seq<SearchResultView>) -> Seq<SearchResultView>
    decreases rs.len(),
{
    if rs.len() == 0 {
        Seq::empty()
    } else {
        merge_into(merge_all(rs.drop_last()), rs.last())
    }
}

proof fn lemma_find_url_at(acc: Seq<SearchResultView>, url: Seq<char>, i: int)
    requires
        0 <= i <= acc.len(),
        forall|k: int| 0 <= k < i ==> (#[trigger] acc[k]).url != url,
        i == acc.len() || acc[i].url == url,
    ensures
        i == acc.len() ==> find_url(acc, url) == -1,
        i < acc.len() ==> find_url(acc, url) == i,
    decreases acc.len(),
{
    if acc.len() > 0 {
        if acc.first().url == url {
        } else {
            let rest = acc.drop_first();
            assert(forall|k: int| 0 <= k < rest.len() ==> #[trigger] rest[k] == acc[k + 1]);
            lemma_find_url_at(rest, url, if i == 0 { 0 } else { i - 1 });
        }
    }
}

/// Whether a tag list holds a tag.
fn contains_tag(tags: &Vec<String>, tag: &String) -> (r: bool)
    ensures
        r == tags.deep_view().contains(tag@),
{
    let mut j: usize = 0;
    while j < tags.len()
        invariant
            0 <= j <= tags@.len(),
            forall|k: int| 0 <= k < j ==> tags.deep_view()[k] != tag@,
        decreases tags@.len() - j,
    {
        proof {
            assert(tags.deep_view()[j as int] == tags@[j as int]@);
        }
        if tags[j] == *tag {
            return true;
        }
        j = j + 1;
    }
    proof {
        if tags.deep_view().contains(tag@) {
            let k = choose|k: int| 0 <= k < tags.deep_view().len() && tags.deep_view()[k] == tag@;
            assert(tags.deep_view()[k] != tag@);
        }
    }
    false
}

/// The first entry that reports the url, if any.
fn find_entry(merged: &Vec<SearchResult>, url: &String) -> (r: Option<usize>)
    ensures
        match r {
            Some(j) => 0 <= j < merged@.len() && find_url(results_view(merged@), url@) == j,
            None => find_url(results_view(merged@), url@) == -1,
        },
{
    let ghost acc = results_view(merged@);
    let mut j: usize = 0;
    while j < merged.len()
        invariant
            0 <= j <= merged@.len(),
            acc == results_view(merged@),
            acc.len() == merged@.len(),
            forall|k: int| 0 <= k < j ==> (#[trigger] acc[k]).url != url@,
        decreases merged@.len() - j,
    {
        if merged[j].url == *url {
            proof {
                lemma_find_url_at(acc, url@, j as int);
            }
            return Some(j);
        }
        j = j + 1;
    }
    proof {
        lemma_find_url_at(acc, url@, merged@.len() as int);
    }
    None
}

/// Merge one result into the accumulating vector, as [`merge_into`] says.
fn merge_one(merged: &mut Vec<SearchResult>, r: SearchResult)
    ensures
        results_view(final(merged)@) == merge_into(results_view(old(merged)@), r@),
{
    let ghost acc = results_view(merged@);
    let search = find_entry(merged, &r.url);
    if search.is_none() {
        let ghost prev = merged@;
        merged.push(r);
        proof {
            assert(results_view(merged@) =~= results_view(prev).push(r@));
        }
    } else {
        let j = search.unwrap();
        let mut entry = merged.remove(j);
        let ghost entry0 = entry@;
        let ghost tags = r.engines.deep_view();
        let mut k: usize = 0;
        proof {
            assert(tags.skip(0) =~= tags);
        }
        while k < r.engines.len()
            invariant
                0 <= k <= r.engines@.len(),
                tags == r.engines.deep_view(),
                tags.len() == r.engines@.len(),
                entry@.title == entry0.title,
                entry@.url == entry0.url,
                entry@.description == entry0.description,
                add_tags(entry0.engines, tags) == add_tags(entry@.engines, tags.skip(k as int)),
            decreases r.engines@.len() - k,
        {
            proof {
                assert(tags.skip(k as int).first() == tags[k as int]);
                assert(tags.skip(k as int).drop_first() =~= tags.skip(k + 1));
            }
            let ghost before = entry@.engines;
            if !contains_tag(&entry.engines, &r.engines[k]) {
                let tag = String::from_str(r.engines[k].as_str());
                entry.engines.push(tag);
                proof {
                    assert(entry@.engines =~= before.push(tags[k as int]));
                }
            }
            k = k + 1;
        }
        proof {
            assert(tags.skip(tags.len() as int) =~= Seq::<Seq<char>>::empty());
            assert(entry@.engines == add_tags(entry0.engines, tags));
        }
        let ghost prev = merged@;
        merged.insert(j, entry);
        proof {
            assert(results_view(merged@) =~= merge_into(acc, r@));
        }
    }
}


/// The mathematical identity of a provider.
pub ghost enum ProviderView {
    Mojeek,
    Startpage,
    Wikipedia { host: Seq<char>, id: Seq<char> },
    Yahoo,
}

/// One enabled provider, adapted to the common capability set: a closed
/// set of variants behind one interface, so the dispatcher never names a
/// concrete provider.
pub enum Provider {
    Mojeek(Mojeek),
    Startpage(Startpage),
    Wikipedia(Wikipedia),
    Yahoo(Yahoo),
}

impl View for Provider {
    type V = ProviderView;

    open spec fn view(&self) -> ProviderView {
        match self {
            Provider::Mojeek(_) => ProviderView::Mojeek,
            Provider::Startpage(_) => ProviderView::Startpage,
            Provider::Wikipedia(w) => ProviderView::Wikipedia { host: w@.host, id: w@.id },
            Provider::Yahoo(_) => ProviderView::Yahoo,
        }
    }
}

/// The request a provider builds for a page context.
pub open spec fn provider_request_spec(p: ProviderView, ctx: PageContextView) -> RequestSpecView {
    match p {
        ProviderView::Mojeek => mojeek_request_spec(ctx),
        ProviderView::Startpage => startpage_request_spec(ctx),
        ProviderView::Wikipedia { host, id } => wikipedia_request_spec(
            WikipediaView { host, id },
            ctx,
        ),
        ProviderView::Yahoo => yahoo_request_spec(ctx),
    }
}

/// What a provider makes of a fetched page.
pub open spec fn provider_response_spec(p: ProviderView, body: Seq<char>) -> Result<
    Seq<(Seq<char>, SearchResultView)>,
    EngineError,
> {
    match p {
        ProviderView::Mojeek => mojeek_response_spec(body),
        ProviderView::Startpage => startpage_response_spec(body),
        ProviderView::Wikipedia { host, id } => wikipedia_response_spec(
            WikipediaView { host, id },
            body,
        ),
        ProviderView::Yahoo => yahoo_response_spec(body),
    }
}

impl Provider {
    /// Build the provider request for a page context.
    pub fn build_request(&self, ctx: &PageContext) -> (r: RequestSpec)
        ensures
            r@ == provider_request_spec(self@, ctx@),
    {
        match self {
            Provider::Mojeek(m) => m.build_request(ctx),
            Provider::Startpage(s) => s.build_request(ctx),
            Provider::Wikipedia(w) => w.build_request(ctx),
            Provider::Yahoo(y) => y.build_request(ctx),
        }
    }

    /// Classify and extract a fetched result page.
    pub fn process_response(&self, body: &str) -> (r: Result<
        Vec<(String, SearchResult)>,
        EngineError,
    >)
        ensures
            response_view(r) == provider_response_spec(self@, body@),
    {
        match self {
            Provider::Mojeek(m) => m.process_response(body),
            Provider::Startpage(s) => s.process_response(body),
            Provider::Wikipedia(w) => w.process_response(body),
            Provider::Yahoo(y) => y.process_response(body),
        }
    }
}

/// The outcome one provider contributes, given its transport result: a
/// missing body (transport failure or timeout) counts as `UnexpectedError`.
pub open spec fn outcome_spec(p: ProviderView, resp: Option<Seq<char>>) -> Result<
    Seq<(Seq<char>, SearchResultView)>,
    EngineError,
> {
    match resp {
        Some(body) => provider_response_spec(p, body),
        None => Err(EngineError::UnexpectedError),
    }
}

/// The successful providers' results concatenated in registration order;
/// failed providers contribute nothing.
pub open spec fn collected_results(
    ps: Seq<ProviderView>,
    rs: Seq<Option<Seq<char>>>,
) -> Seq<SearchResultView>
    decreases ps.len(),
{
    if ps.len() == 0 {
        Seq::empty()
    } else {
        collected_results(ps.drop_last(), rs.take(ps.len() - 1)) + (match outcome_spec(
            ps.last(),
            rs[ps.len() - 1],
        ) {
            Ok(v) => v.map_values(|q: (Seq<char>, SearchResultView)| q.1),
            Err(_) => Seq::empty(),
        })
    }
}

/// Whether at least one provider succeeded.
pub open spec fn any_success(ps: Seq<ProviderView>, rs: Seq<Option<Seq<char>>>) -> bool {
    exists|k: int| 0 <= k < ps.len() && (#[trigger] outcome_spec(ps[k], rs[k])) is Ok
}

/// Whether the outcome is an unexpected failure.
pub open spec fn outcome_is_unexpected(o: Result<Seq<(Seq<char>, SearchResultView)>, EngineError>) -> bool {
    match o {
        Err(e) => e == EngineError::UnexpectedError,
        Ok(_) => false,
    }
}

/// Whether at least one provider failed unexpectedly.
pub open spec fn any_unexpected(ps: Seq<ProviderView>, rs: Seq<Option<Seq<char>>>) -> bool {
    exists|k: int| 0 <= k < ps.len() && outcome_is_unexpected(#[trigger] outcome_spec(ps[k], rs[k]))
}

/// The dispatch outcome: with at least one success, the merged results;
/// with none, one aggregate failure, which is `EmptyResultSet` exactly when
/// every provider explicitly reported no matches.
pub open spec fn dispatch_spec(ps: Seq<ProviderView>, rs: Seq<Option<Seq<char>>>) -> Result<
    Seq<SearchResultView>,
    EngineError,
> {
    if any_success(ps, rs) {
        Ok(merge_all(collected_results(ps, rs)))
    } else if any_unexpected(ps, rs) {
        Err(EngineError::UnexpectedError)
    } else {
        Err(EngineError::EmptyResultSet)
    }
}

/// The view of a dispatch outcome.
pub open spec fn dispatch_view(r: Result<Vec<SearchResult>, EngineError>) -> Result<
    Seq<SearchResultView>,
    EngineError,
> {
    match r {
        Ok(v) => Ok(results_view(v@)),
        Err(e) => Err(e),
    }
}

/// The enabled provider set, in registration order, built once at startup
/// and immutable afterwards.
pub struct Registry {
    providers: Vec<Provider>,
}

impl View for Registry {
    type V = Seq<ProviderView>;

    closed spec fn view(&self) -> Seq<ProviderView> {
        self.providers@.map_values(|p: Provider| p@)
    }
}

impl Registry {
    /// An empty registry.
    pub fn new() -> (r: Registry)
        ensures
            r@ == Seq::<ProviderView>::empty(),
    {
        let r = Registry { providers: Vec::new() };
        proof {
            assert(r@ =~= Seq::<ProviderView>::empty());
        }
        r
    }

    /// Register one provider at the end of the order.
    pub fn add(&mut self, p: Provider)
        ensures
            final(self)@ == old(self)@.push(p@),
    {
        let ghost pv = p@;
        self.providers.push(p);
        proof {
            assert(self@ =~= old(self)@.push(pv));
        }
    }

    /// The number of enabled providers.
    pub fn len(&self) -> (r: usize)
        ensures
            r == self@.len(),
    {
        self.providers.len()
    }

    /// One request per enabled provider, in registration order.
    pub fn build_requests(&self, ctx: &PageContext) -> (r: Vec<RequestSpec>)
        ensures
            r@.len() == self@.len(),
            forall|k: int|
                0 <= k < r@.len() ==> (#[trigger] r@[k])@ == provider_request_spec(
                    self@[k],
                    ctx@,
                ),
    {
        let mut out: Vec<RequestSpec> = Vec::new();
        let mut i: usize = 0;
        while i < self.providers.len()
            invariant
                0 <= i <= self.providers@.len(),
                self@.len() == self.providers@.len(),
                out@.len() == i,
                forall|k: int|
                    0 <= k < i ==> (#[trigger] out@[k])@ == provider_request_spec(self@[k], ctx@),
            decreases self.providers@.len() - i,
        {
            proof {
                assert(self@[i as int] == self.providers@[i as int]@);
            }
            let req = self.providers[i].build_request(ctx);
            out.push(req);
            i = i + 1;
        }
        out
    }
}


impl Registry {
    /// Fan one fetched body (or transport failure) per provider back into
    /// per-provider outcomes, merge the successes in registration order,
    /// and classify the all-fail case. One failing provider never prevents
    /// another's results from being included.
    pub fn dispatch(&self, responses: &Vec<Option<String>>) -> (r: Result<
        Vec<SearchResult>,
        EngineError,
    >)
        requires
            responses@.len() == self@.len(),
        ensures
            dispatch_view(r) == dispatch_spec(self@, responses.deep_view()),
    {
        let ghost ps = self@;
        let ghost rv = responses.deep_view();
        let mut merged: Vec<SearchResult> = Vec::new();
        let mut any_ok: bool = false;
        let mut saw_unexpected: bool = false;
        let n = self.providers.len();
        proof {
            assert(ps.len() == n);
            assert(rv.len() == responses@.len());
            assert(ps.take(0) =~= Seq::<ProviderView>::empty());
            assert(rv.take(0) =~= Seq::<Option<Seq<char>>>::empty());
            assert(results_view(merged@) =~= Seq::<SearchResultView>::empty());
        }
        let mut i: usize = 0;
        while i < n
            invariant
                0 <= i <= n,
                ps == self@,
                rv == responses.deep_view(),
                ps.len() == n,
                rv.len() == n,
                responses@.len() == n,
                n == self.providers@.len(),
                results_view(merged@) == merge_all(
                    collected_results(ps.take(i as int), rv.take(i as int)),
                ),
                any_ok == any_success(ps.take(i as int), rv.take(i as int)),
                saw_unexpected == any_unexpected(ps.take(i as int), rv.take(i as int)),
            decreases n - i,
        {
            proof {
                assert(ps[i as int] == self.providers@[i as int]@);
                assert(rv[i as int] == responses@[i as int].deep_view());
            }
            let resp = &responses[i];
            let outcome = match resp {
                Some(body) => self.providers[i].process_response(body.as_str()),
                None => Err(EngineError::UnexpectedError),
            };
            proof {
                assert(response_view(outcome) == outcome_spec(ps[i as int], rv[i as int]));
                assert(ps.take(i + 1).drop_last() =~= ps.take(i as int));
                assert(rv.take(i + 1).take(i as int) =~= rv.take(i as int));
                assert(ps.take(i + 1).last() == ps[i as int]);
                assert(rv.take(i + 1)[i as int] == rv[i as int]);
            }
            let ghost sofar = collected_results(ps.take(i as int), rv.take(i as int));
            match outcome {
                Ok(mut pairs) => {
                    let ghost orig = crate::engines::search_result_parser::pairs_view(pairs@);
                    let ghost addv = orig.map_values(|q: (Seq<char>, SearchResultView)| q.1);
                    proof {
                        assert(outcome_spec(ps[i as int], rv[i as int]) == Ok::<_, EngineError>(
                            orig,
                        ));
                        assert(collected_results(ps.take(i + 1), rv.take(i + 1)) =~= sofar + addv);
                        assert((sofar + addv.take(0)) =~= sofar);
                        assert(any_success(ps.take(i + 1), rv.take(i + 1))) by {
                            assert((#[trigger] outcome_spec(
                                ps.take(i + 1)[i as int],
                                rv.take(i + 1)[i as int],
                            )) is Ok);
                        }
                        assert(any_unexpected(ps.take(i + 1), rv.take(i + 1)) == any_unexpected(
                            ps.take(i as int),
                            rv.take(i as int),
                        )) by {
                            if any_unexpected(ps.take(i + 1), rv.take(i + 1)) {
                                let k = choose|k: int|
                                    0 <= k < ps.take(i + 1).len() && outcome_is_unexpected(
                                        #[trigger] outcome_spec(ps.take(i + 1)[k], rv.take(i + 1)[k]),
                                    );
                                if k < i {
                                    assert(outcome_is_unexpected(
                                        outcome_spec(ps.take(i as int)[k], rv.take(i as int)[k]),
                                    ));
                                }
                            }
                            if any_unexpected(ps.take(i as int), rv.take(i as int)) {
                                let k = choose|k: int|
                                    0 <= k < ps.take(i as int).len() && outcome_is_unexpected(
                                        #[trigger] outcome_spec(
                                            ps.take(i as int)[k],
                                            rv.take(i as int)[k],
                                        ),
                                    );
                                assert(outcome_is_unexpected(
                                    outcome_spec(ps.take(i + 1)[k], rv.take(i + 1)[k]),
                                ));
                            }
                        }
                    }
                    any_ok = true;
                    let ghost total = pairs@.len() as int;
                    let ghost mut j: int = 0;
                    while pairs.len() > 0
                        invariant
                            0 <= j,
                            j + pairs@.len() == total,
                            total == orig.len(),
                            addv == orig.map_values(|q: (Seq<char>, SearchResultView)| q.1),
                            addv.len() == orig.len(),
                            crate::engines::search_result_parser::pairs_view(pairs@) =~= orig.skip(
                                j as int,
                            ),
                            results_view(merged@) == merge_all(sofar + addv.take(j as int)),
                        decreases pairs@.len(),
                    {
                        let ghost prev_pairs = pairs@;
                        let pair = pairs.remove(0);
                        proof {
                            assert(crate::engines::search_result_parser::pairs_view(prev_pairs)[0]
                                == (pair.0@, pair.1@));
                            assert(orig.skip(j as int)[0] == orig[j as int]);
                            assert(pair.1@ == addv[j as int]);
                            assert(pairs@ =~= prev_pairs.drop_first());
                            assert(forall|k: int|
                                0 <= k < pairs@.len() ==> #[trigger] pairs@[k] == prev_pairs[k
                                + 1]);
                            assert(crate::engines::search_result_parser::pairs_view(pairs@)
                                =~= orig.skip(j + 1)) by {
                                assert(forall|k: int|
                                    0 <= k < pairs@.len()
                                        ==> #[trigger] crate::engines::search_result_parser::pairs_view(
                                        pairs@,
                                    )[k] == crate::engines::search_result_parser::pairs_view(
                                        prev_pairs,
                                    )[k + 1]);
                                assert(forall|k: int|
                                    0 <= k < orig.skip(j + 1).len() ==> #[trigger] orig.skip(
                                        j + 1,
                                    )[k] == orig.skip(j as int)[k + 1]);
                            }
                        }
                        merge_one(&mut merged, pair.1);
                        proof {
                            assert((sofar + addv.take(j + 1)) =~= (sofar + addv.take(
                                j as int,
                            )).push(addv[j as int]));
                            assert((sofar + addv.take(j + 1)).drop_last() =~= sofar + addv.take(
                                j as int,
                            ));
                            j = j + 1;
                        }
                    }
                    proof {
                        assert(addv.take(addv.len() as int) =~= addv);
                    }
                },
                Err(e) => {
                    proof {
                        assert(!((#[trigger] outcome_spec(ps[i as int], rv[i as int])) is Ok));
                        assert(collected_results(ps.take(i + 1), rv.take(i + 1)) =~= sofar);
                        assert(any_success(ps.take(i + 1), rv.take(i + 1)) == any_success(
                            ps.take(i as int),
                            rv.take(i as int),
                        )) by {
                            if any_success(ps.take(i + 1), rv.take(i + 1)) {
                                let k = choose|k: int|
                                    0 <= k < ps.take(i + 1).len() && (#[trigger] outcome_spec(
                                        ps.take(i + 1)[k],
                                        rv.take(i + 1)[k],
                                    )) is Ok;
                                if k < i {
                                    assert((outcome_spec(
                                        ps.take(i as int)[k],
                                        rv.take(i as int)[k],
                                    )) is Ok);
                                }
                            }
                            if any_success(ps.take(i as int), rv.take(i as int)) {
                                let k = choose|k: int|
                                    0 <= k < ps.take(i as int).len() && (#[trigger] outcome_spec(
                                        ps.take(i as int)[k],
                                        rv.take(i as int)[k],
                                    )) is Ok;
                                assert((outcome_spec(ps.take(i + 1)[k], rv.take(i + 1)[k])) is Ok);
                            }
                        }
                    }
                    if e == EngineError::UnexpectedError {
                        saw_unexpected = true;
                        proof {
                            assert(any_unexpected(ps.take(i + 1), rv.take(i + 1))) by {
                                assert(outcome_is_unexpected(#[trigger] outcome_spec(
                                    ps.take(i + 1)[i as int],
                                    rv.take(i + 1)[i as int],
                                )));
                            }
                        }
                    } else {
                        proof {
                            assert(!outcome_is_unexpected(outcome_spec(ps[i as int], rv[i as int])));
                            assert(any_unexpected(ps.take(i + 1), rv.take(i + 1)) == any_unexpected(
                                ps.take(i as int),
                                rv.take(i as int),
                            )) by {
                                if any_unexpected(ps.take(i + 1), rv.take(i + 1)) {
                                    let k = choose|k: int|
                                        0 <= k < ps.take(i + 1).len() && outcome_is_unexpected(
                                            #[trigger] outcome_spec(
                                                ps.take(i + 1)[k],
                                                rv.take(i + 1)[k],
                                            ),
                                        );
                                    if k < i {
                                        assert(outcome_is_unexpected(
                                            outcome_spec(ps.take(i as int)[k], rv.take(i as int)[k]),
                                        ));
                                    }
                                }
                                if any_unexpected(ps.take(i as int), rv.take(i as int)) {
                                    let k = choose|k: int|
                                        0 <= k < ps.take(i as int).len() && outcome_is_unexpected(
                                            #[trigger] outcome_spec(
                                                ps.take(i as int)[k],
                                                rv.take(i as int)[k],
                                            ),
                                        );
                                    assert(outcome_is_unexpected(
                                        outcome_spec(ps.take(i + 1)[k], rv.take(i + 1)[k]),
                                    ));
                                }
                            }
                        }
                    }
                },
            }
            i = i + 1;
        }
        proof {
            assert(ps.take(n as int) =~= ps);
            assert(rv.take(n as int) =~= rv);
        }
        if any_ok {
            Ok(merged)
        } else if saw_unexpected {
            Err(EngineError::UnexpectedError)
        } else {
            Err(EngineError::EmptyResultSet)
        }
    }
}


/// Whether every tag of `a` also stands in `b`.
pub open spec fn tags_sub(a: Seq<Seq<char>>, b: Seq<Seq<char>>) -> bool {
    forall|t: Seq<char>| a.contains(t) ==> b.contains(t)
}

/// Whether some merged entry reports the result's url and carries all its
/// tags.
pub open spec fn covered(merged: Seq<SearchResultView>, r: SearchResultView) -> bool {
    exists|j: int|
        0 <= j < merged.len() && (#[trigger] merged[j]).url == r.url && tags_sub(
            r.engines,
            merged[j].engines,
        )
}

proof fn lemma_find_url_props(acc: Seq<SearchResultView>, url: Seq<char>)
    ensures
        find_url(acc, url) == -1 ==> forall|j: int|
            0 <= j < acc.len() ==> (#[trigger] acc[j]).url != url,
        find_url(acc, url) >= 0 ==> 0 <= find_url(acc, url) < acc.len() && acc[find_url(
            acc,
            url,
        )].url == url,
    decreases acc.len(),
{
    if acc.len() > 0 && acc.first().url != url {
        let rest = acc.drop_first();
        lemma_find_url_props(rest, url);
        if find_url(acc, url) == -1 {
            assert forall|j: int| 0 <= j < acc.len() implies (#[trigger] acc[j]).url != url by {
                if j > 0 {
                    assert(rest[j - 1] == acc[j]);
                }
            }
        }
    }
}

proof fn lemma_add_tags_super(e: Seq<Seq<char>>, t: Seq<Seq<char>>)
    ensures
        tags_sub(e, add_tags(e, t)),
        tags_sub(t, add_tags(e, t)),
    decreases t.len(),
{
    if t.len() > 0 {
        let e2 = if e.contains(t.first()) {
            e
        } else {
            e.push(t.first())
        };
        lemma_add_tags_super(e2, t.drop_first());
        assert forall|tag: Seq<char>| e.contains(tag) implies e2.contains(tag) by {
            let idx = choose|idx: int| 0 <= idx < e.len() && e[idx] == tag;
            assert(e2[idx] == tag);
        }
        assert(e2.contains(t.first())) by {
            if !e.contains(t.first()) {
                assert(e2[e.len() as int] == t.first());
            }
        }
        assert forall|tag: Seq<char>| t.contains(tag) implies add_tags(e, t).contains(tag) by {
            let idx = choose|idx: int| 0 <= idx < t.len() && t[idx] == tag;
            if idx == 0 {
                assert(e2.contains(t.first()));
            } else {
                assert(t.drop_first()[idx - 1] == tag);
                assert(t.drop_first().contains(tag));
            }
        }
    }
}

proof fn lemma_merge_into_props(acc: Seq<SearchResultView>, r: SearchResultView)
    ensures
        merge_into(acc, r).len() >= acc.len(),
        forall|j: int|
            0 <= j < acc.len() ==> (#[trigger] merge_into(acc, r)[j]).url == acc[j].url,
        forall|j: int|
            0 <= j < acc.len() ==> tags_sub(acc[j].engines, merge_into(acc, r)[j].engines),
        covered(merge_into(acc, r), r),
{
    let f = find_url(acc, r.url);
    lemma_find_url_props(acc, r.url);
    if f < 0 {
        let m = acc.push(r);
        assert(m[acc.len() as int] == r);
        assert(covered(m, r));
    } else {
        lemma_add_tags_super(acc[f].engines, r.engines);
        let m = merge_into(acc, r);
        assert(m[f].url == r.url);
        assert(tags_sub(r.engines, m[f].engines));
        assert(covered(m, r));
    }
}

/// Merged output never reports one url twice: results with an equal url
/// have been folded into a single entry.
pub proof fn lemma_merge_all_distinct_urls(rs: Seq<SearchResultView>)
    ensures
        forall|j: int, k: int|
            0 <= j < k < merge_all(rs).len() ==> (#[trigger] merge_all(rs)[j]).url != (
            #[trigger] merge_all(rs)[k]).url,
    decreases rs.len(),
{
    if rs.len() > 0 {
        let m = merge_all(rs.drop_last());
        let r = rs.last();
        lemma_merge_all_distinct_urls(rs.drop_last());
        lemma_find_url_props(m, r.url);
        let f = find_url(m, r.url);
        if f < 0 {
            assert(forall|j: int|
                0 <= j < m.len() ==> (#[trigger] m.push(r)[j]).url == m[j].url);
        }
    }
}

/// Every input result is represented in the merged output: some entry
/// reports its url and carries every one of its tags. Together with
/// distinctness of urls, two providers returning an item with an identical
/// url end up with one entry whose tag set unions both.
pub proof fn lemma_merge_all_covers(rs: Seq<SearchResultView>, i: int)
    requires
        0 <= i < rs.len(),
    ensures
        covered(merge_all(rs), rs[i]),
    decreases rs.len(),
{
    let m = merge_all(rs.drop_last());
    let r = rs.last();
    lemma_merge_into_props(m, r);
    if i == rs.len() - 1 {
    } else {
        lemma_merge_all_covers(rs.drop_last(), i);
        assert(rs.drop_last()[i] == rs[i]);
        let j = choose|j: int|
            0 <= j < m.len() && (#[trigger] m[j]).url == rs[i].url && tags_sub(
                rs[i].engines,
                m[j].engines,
            );
        assert((merge_all(rs)[j]).url == rs[i].url);
        assert(tags_sub(m[j].engines, merge_all(rs)[j].engines));
        assert(tags_sub(rs[i].engines, merge_all(rs)[j].engines));
        assert(covered(merge_all(rs), rs[i]));
    }
}

/// One provider's success guarantees an aggregate success, whatever the
/// other providers returned: a failing provider never prevents another's
/// results from being included.
pub proof fn lemma_dispatch_tolerates_failures(
    ps: Seq<ProviderView>,
    rs: Seq<Option<Seq<char>>>,
    i: int,
)
    requires
        0 <= i < ps.len(),
        outcome_spec(ps[i], rs[i]) is Ok,
    ensures
        dispatch_spec(ps, rs) is Ok,
{
    assert(any_success(ps, rs)) by {
        assert((#[trigger] outcome_spec(ps[i], rs[i])) is Ok);
    }
}

/// With no provider succeeding, dispatch reports one aggregate failure:
/// `UnexpectedError` when any provider failed unexpectedly, else the
/// explicit `EmptyResultSet`.
pub proof fn lemma_dispatch_all_fail(ps: Seq<ProviderView>, rs: Seq<Option<Seq<char>>>)
    requires
        forall|k: int| 0 <= k < ps.len() ==> !((#[trigger] outcome_spec(ps[k], rs[k])) is Ok),
    ensures
        dispatch_spec(ps, rs) is Err,
        any_unexpected(ps, rs) ==> dispatch_spec(ps, rs) == Err::<
            Seq<SearchResultView>,
            EngineError,
        >(EngineError::UnexpectedError),
        !any_unexpected(ps, rs) ==> dispatch_spec(ps, rs) == Err::<
            Seq<SearchResultView>,
            EngineError,
        >(EngineError::EmptyResultSet),
{
    if any_success(ps, rs) {
        let k = choose|k: int| 0 <= k < ps.len() && (#[trigger] outcome_spec(ps[k], rs[k])) is Ok;
        assert(!(outcome_spec(ps[k], rs[k]) is Ok));
    }
}


/// A single-provider registry whose provider explicitly reports no matches
/// dispatches to the explicit empty result set: item extraction never
/// happens in its place.
pub proof fn lemma_single_provider_empty(p: ProviderView, body: Seq<char>)
    requires
        provider_response_spec(p, body) == Err::<
            Seq<(Seq<char>, SearchResultView)>,
            EngineError,
        >(EngineError::EmptyResultSet),
    ensures
        dispatch_spec(seq![p], seq![Some(body)]) == Err::<Seq<SearchResultView>, EngineError>(
            EngineError::EmptyResultSet,
        ),
{
    let ps = seq![p];
    let rs = seq![Some(body)];
    assert(outcome_spec(ps[0], rs[0]) == Err::<Seq<(Seq<char>, SearchResultView)>, EngineError>(
        EngineError::EmptyResultSet,
    ));
    assert(forall|k: int| 0 <= k < ps.len() ==> !((#[trigger] outcome_spec(ps[k], rs[k])) is Ok));
    lemma_dispatch_all_fail(ps, rs);
    if any_unexpected(ps, rs) {
        let k = choose|k: int|
            0 <= k < ps.len() && outcome_is_unexpected(#[trigger] outcome_spec(ps[k], rs[k]));
        assert(!outcome_is_unexpected(outcome_spec(ps[0], rs[0])));
    }
}


/// Whether a tag list names no provider twice.
pub open spec fn distinct_tags(e: Seq<Seq<char>>) -> bool {
    forall|i: int, j: int| 0 <= i < j < e.len() ==> e[i] != e[j]
}

proof fn lemma_add_tags_distinct(e: Seq<Seq<char>>, t: Seq<Seq<char>>)
    requires
        distinct_tags(e),
    ensures
        distinct_tags(add_tags(e, t)),
        add_tags(e, t).len() >= e.len(),
    decreases t.len(),
{
    if t.len() > 0 {
        let e2 = if e.contains(t.first()) {
            e
        } else {
            e.push(t.first())
        };
        if !e.contains(t.first()) {
            assert forall|i: int, j: int| 0 <= i < j < e2.len() implies e2[i] != e2[j] by {
                if j == e.len() {
                    assert(e[i] == e2[i]);
                    if e2[i] == t.first() {
                        assert(e.contains(t.first()));
                    }
                }
            }
        }
        lemma_add_tags_distinct(e2, t.drop_first());
    }
}

/// Every merged entry's tag set stays a set, and stays non-empty: merging
/// unions tags without ever duplicating or emptying them.
pub proof fn lemma_merge_all_tag_sets(rs: Seq<SearchResultView>)
    requires
        forall|i: int|
            0 <= i < rs.len() ==> distinct_tags((#[trigger] rs[i]).engines) && rs[i].engines.len()
                > 0,
    ensures
        forall|j: int|
            0 <= j < merge_all(rs).len() ==> distinct_tags((#[trigger] merge_all(rs)[j]).engines)
                && merge_all(rs)[j].engines.len() > 0,
    decreases rs.len(),
{
    if rs.len() > 0 {
        let m = merge_all(rs.drop_last());
        let r = rs.last();
        assert(forall|i: int|
            0 <= i < rs.drop_last().len() ==> #[trigger] rs.drop_last()[i] == rs[i]);
        lemma_merge_all_tag_sets(rs.drop_last());
        let f = find_url(m, r.url);
        lemma_find_url_props(m, r.url);
        if f < 0 {
            assert(forall|j: int| 0 <= j < m.len() ==> #[trigger] m.push(r)[j] == m[j]);
            assert(m.push(r)[m.len() as int] == r);
        } else {
            lemma_add_tags_distinct(m[f].engines, r.engines);
            assert(forall|j: int|
                0 <= j < merge_all(rs).len() && j != f ==> #[trigger] merge_all(rs)[j] == m[j]);
        }
    }
}

} // verus!
