//! The selector-driven result parser: five style selectors, set once at
//! construction, drive the extraction of no-result markers and of
//! (title, link, description) items from a provider's result page.
//!
//! Selector matching itself is the work of the `scraper` crate and stands
//! behind trusted wrappers; everything the pipeline decides from the matched
//! elements' text is verified.
use vstd::prelude::*;
use vstd::string::*;

use crate::models::ParserConfigError;
use crate::models::SearchResult;
use crate::models::SearchResultView;
use crate::text::trim_spec;

verus! {

/// Whether a selector string compiles as a style selector. Deterministic:
/// it depends on the selector text alone.
pub uninterp spec fn selector_compiles(sel: Seq<char>) -> bool;

/// The inner html of each element the selector matches in the document the
/// html text parses to, in document order. A function of the text and the
/// selector alone.
pub uninterp spec fn marker_texts_of(html: Seq<char>, sel: Seq<char>) -> Seq<Seq<char>>;

/// The raw items the four selectors extract from the html text: one per
/// element the item selector matches, in document order, each holding the
/// first title, link and description sub-element found in the item's
/// subtree. A function of the text and the selectors alone.
pub uninterp spec fn raw_items_of(
    html: Seq<char>,
    item_sel: Seq<char>,
    title_sel: Seq<char>,
    link_sel: Seq<char>,
    desc_sel: Seq<char>,
) -> Seq<RawItemView>;

/// Relies on scraper::Selector::parse: whether the selector text compiles.
#[verifier::external_body]
fn check_selector(sel: &str) -> (r: bool)
    ensures
        r == selector_compiles(sel@),
{
    scraper::Selector::parse(sel).is_ok()
}

/// The mathematical value of an [`ElementData`].
pub ghost struct ElementDataView {
    pub inner_html: Seq<char>,
    pub href: Option<Seq<char>>,
    pub aria_label: Option<Seq<char>>,
}

/// What the pipeline reads from one matched element: its inner html and the
/// two attributes a provider constructor may consult.
#[derive(Clone, Debug)]
pub struct ElementData {
    pub inner_html: String,
    pub href: Option<String>,
    pub aria_label: Option<String>,
}

impl DeepView for ElementData {
    type V = ElementDataView;

    open spec fn deep_view(&self) -> ElementDataView {
        ElementDataView {
            inner_html: self.inner_html@,
            href: self.href.deep_view(),
            aria_label: self.aria_label.deep_view(),
        }
    }
}

/// The mathematical value of a [`RawItem`].
pub ghost struct RawItemView {
    pub title: Option<ElementDataView>,
    pub link: Option<ElementDataView>,
    pub description: Option<ElementDataView>,
}

/// One candidate result item: the first title, link and description
/// sub-element found within the item's subtree, each possibly absent.
#[derive(Clone, Debug)]
pub struct RawItem {
    pub title: Option<ElementData>,
    pub link: Option<ElementData>,
    pub description: Option<ElementData>,
}

impl DeepView for RawItem {
    type V = RawItemView;

    open spec fn deep_view(&self) -> RawItemView {
        RawItemView {
            title: self.title.deep_view(),
            link: self.link.deep_view(),
            description: self.description.deep_view(),
        }
    }
}

#[verifier::external_type_specification]
#[verifier::external_body]
pub struct ExElementRef<'a>(scraper::ElementRef<'a>);

/// Relies on scraper::ElementRef::inner_html and scraper::ElementRef::attr
/// to read one element's text and its `href` and `aria-label` attributes.
#[verifier::external_body]
fn elem_fields(e: &scraper::ElementRef<'_>) -> ElementData {
    ElementData {
        inner_html: e.inner_html(),
        href: e.attr("href").map(str::to_string),
        aria_label: e.attr("aria-label").map(str::to_string),
    }
}

/// Relies on scraper::Html::parse_document (which never fails) and on
/// scraper's selector matching: the result holds the matched elements'
/// inner html, in document order.
#[verifier::external_body]
fn scrape_markers(html: &str, sel: &str) -> (r: Vec<String>)
    requires
        selector_compiles(sel@),
    ensures
        r.deep_view() == marker_texts_of(html@, sel@),
{
    let compiled = scraper::Selector::parse(sel).unwrap();
    let doc = scraper::Html::parse_document(html);
    let mut out = Vec::new();
    for e in doc.select(&compiled) {
        out.push(e.inner_html());
    }
    out
}

/// Relies on scraper::Html::parse_document and scraper's selector matching:
/// one raw item per matched item element, in document order, each carrying
/// the first match of the three sub-selectors within the item's subtree.
#[verifier::external_body]
fn scrape_items(html: &str, item_sel: &str, title_sel: &str, link_sel: &str, desc_sel: &str) -> (r:
    Vec<RawItem>)
    requires
        selector_compiles(item_sel@),
        selector_compiles(title_sel@),
        selector_compiles(link_sel@),
        selector_compiles(desc_sel@),
    ensures
        r.deep_view() == raw_items_of(html@, item_sel@, title_sel@, link_sel@, desc_sel@),
{
    let item = scraper::Selector::parse(item_sel).unwrap();
    let title = scraper::Selector::parse(title_sel).unwrap();
    let link = scraper::Selector::parse(link_sel).unwrap();
    let desc = scraper::Selector::parse(desc_sel).unwrap();
    let doc = scraper::Html::parse_document(html);
    let mut out = Vec::new();
    for el in doc.select(&item) {
        out.push(RawItem {
            title: el.select(&title).next().as_ref().map(elem_fields),
            link: el.select(&link).next().as_ref().map(elem_fields),
            description: el.select(&desc).next().as_ref().map(elem_fields),
        });
    }
    out
}

/// The mathematical value of a [`SearchResultParser`]: its five selector
/// strings.
pub ghost struct SearchResultParserView {
    pub no_result: Seq<char>,
    pub result_item: Seq<char>,
    pub title: Seq<char>,
    pub link: Seq<char>,
    pub description: Seq<char>,
}

/// Five compiled-checked selectors, set once at construction: the no-result
/// marker, the result item container, and the title, link and description
/// sub-selectors.
#[derive(Debug)]
pub struct SearchResultParser {
    no_result: String,
    result_item: String,
    title: String,
    link: String,
    description: String,
}

impl View for SearchResultParser {
    type V = SearchResultParserView;

    closed spec fn view(&self) -> SearchResultParserView {
        SearchResultParserView {
            no_result: self.no_result@,
            result_item: self.result_item@,
            title: self.title@,
            link: self.link@,
            description: self.description@,
        }
    }
}

/// Whether five selector strings are acceptable parser configuration: all
/// non-empty and all compiling as style selectors.
pub open spec fn parser_config_ok(v: SearchResultParserView) -> bool {
    &&& v.no_result.len() > 0
    &&& v.result_item.len() > 0
    &&& v.title.len() > 0
    &&& v.link.len() > 0
    &&& v.description.len() > 0
    &&& selector_compiles(v.no_result)
    &&& selector_compiles(v.result_item)
    &&& selector_compiles(v.title)
    &&& selector_compiles(v.link)
    &&& selector_compiles(v.description)
}

impl SearchResultParser {
    #[verifier::type_invariant]
    spec fn wf(self) -> bool {
        parser_config_ok(self@)
    }

    /// Check and keep the five selectors. Construction fails exactly when a
    /// selector string is empty or does not compile.
    pub fn new(
        no_result: &str,
        result_item: &str,
        title: &str,
        link: &str,
        description: &str,
    ) -> (r: Result<SearchResultParser, ParserConfigError>)
        ensures
            r is Ok <==> parser_config_ok(
                SearchResultParserView {
                    no_result: no_result@,
                    result_item: result_item@,
                    title: title@,
                    link: link@,
                    description: description@,
                },
            ),
            r matches Ok(p) ==> p@ == (SearchResultParserView {
                no_result: no_result@,
                result_item: result_item@,
                title: title@,
                link: link@,
                description: description@,
            }),
    {
        if no_result.is_empty() || result_item.is_empty() || title.is_empty() || link.is_empty()
            || description.is_empty() {
            return Err(ParserConfigError);
        }
        if !check_selector(no_result) || !check_selector(result_item) || !check_selector(title)
            || !check_selector(link) || !check_selector(description) {
            return Err(ParserConfigError);
        }
        Ok(
            SearchResultParser {
                no_result: String::from_str(no_result),
                result_item: String::from_str(result_item),
                title: String::from_str(title),
                link: String::from_str(link),
                description: String::from_str(description),
            },
        )
    }

    /// Apply the no-result selector to the page text: the matched elements'
    /// inner html, in document order. Finite and restartable: each call
    /// drains the whole document anew.
    pub fn find_no_result_markers(&self, html: &str) -> (r: Vec<String>)
        ensures
            r.deep_view() == marker_texts_of(html@, self@.no_result),
    {
        proof {
            use_type_invariant(&*self);
        }
        scrape_markers(html, self.no_result.as_str())
    }

    /// Apply the item selector and the three sub-selectors to the page
    /// text: one raw item per candidate element, in document order.
    pub fn extract_raw_items(&self, html: &str) -> (r: Vec<RawItem>)
        ensures
            r.deep_view() == raw_items_of(
                html@,
                self@.result_item,
                self@.title,
                self@.link,
                self@.description,
            ),
    {
        proof {
            use_type_invariant(&*self);
        }
        scrape_items(
            html,
            self.result_item.as_str(),
            self.title.as_str(),
            self.link.as_str(),
            self.description.as_str(),
        )
    }
}


/// The mathematical value of a [`ResultBuilder`].
pub ghost enum ResultBuilderView {
    Mojeek,
    Startpage,
    Yahoo,
    Wikipedia { host: Seq<char>, id: Seq<char> },
}

/// The caller-supplied result constructor: each provider's rule for turning
/// one raw item into a tagged result, or for skipping it.
#[derive(Clone, Debug)]
pub enum ResultBuilder {
    Mojeek,
    Startpage,
    Yahoo,
    Wikipedia { host: String, id: String },
}

impl View for ResultBuilder {
    type V = ResultBuilderView;

    open spec fn view(&self) -> ResultBuilderView {
        match self {
            ResultBuilder::Mojeek => ResultBuilderView::Mojeek,
            ResultBuilder::Startpage => ResultBuilderView::Startpage,
            ResultBuilder::Yahoo => ResultBuilderView::Yahoo,
            ResultBuilder::Wikipedia { host, id } => ResultBuilderView::Wikipedia {
                host: host@,
                id: id@,
            },
        }
    }
}

/// The provider tag a builder attaches to every result it constructs.
pub open spec fn builder_tag(b: ResultBuilderView) -> Seq<char> {
    match b {
        ResultBuilderView::Mojeek => "mojeek"@,
        ResultBuilderView::Startpage => "startpage"@,
        ResultBuilderView::Yahoo => "yahoo"@,
        ResultBuilderView::Wikipedia { host, id } => id,
    }
}

/// What a builder constructs from one raw item: `None` when a required
/// sub-element (or a required `href` attribute) is absent, otherwise the
/// result with its text fields trimmed and its tag set holding the
/// builder's own tag.
pub open spec fn built_result(b: ResultBuilderView, it: RawItemView) -> Option<SearchResultView> {
    match (it.title, it.link, it.description) {
        (Some(t), Some(l), Some(d)) => match b {
            ResultBuilderView::Mojeek => match l.href {
                Some(h) => Some(
                    SearchResultView {
                        title: trim_spec(t.inner_html),
                        url: trim_spec(h),
                        description: trim_spec(d.inner_html),
                        engines: seq!["mojeek"@],
                    },
                ),
                None => None,
            },
            ResultBuilderView::Startpage => Some(
                SearchResultView {
                    title: trim_spec(t.inner_html),
                    url: trim_spec(l.inner_html),
                    description: trim_spec(d.inner_html),
                    engines: seq!["startpage"@],
                },
            ),
            ResultBuilderView::Yahoo => Some(
                SearchResultView {
                    title: trim_spec(
                        match t.aria_label {
                            Some(a) => a,
                            None => "No Title Found"@,
                        },
                    ),
                    url: trim_spec(
                        match l.href {
                            Some(h) => h,
                            None => "No Link Found"@,
                        },
                    ),
                    description: trim_spec(d.inner_html),
                    engines: seq!["yahoo"@],
                },
            ),
            ResultBuilderView::Wikipedia { host, id } => match l.href {
                Some(h) => Some(
                    SearchResultView {
                        title: trim_spec(t.inner_html),
                        url: trim_spec(host + h),
                        description: trim_spec(d.inner_html),
                        engines: seq![id],
                    },
                ),
                None => None,
            },
        },
        _ => None,
    }
}

/// The tagged pair a builder produces from one raw item, if any.
pub open spec fn built_pair(b: ResultBuilderView, it: RawItemView) -> Option<
    (Seq<char>, SearchResultView),
> {
    match built_result(b, it) {
        Some(r) => Some((builder_tag(b), r)),
        None => None,
    }
}

/// The view of an optional tagged pair.
pub open spec fn opt_pair_view(r: Option<(String, SearchResult)>) -> Option<
    (Seq<char>, SearchResultView),
> {
    match r {
        Some(p) => Some((p.0@, p.1@)),
        None => None,
    }
}

/// The views of a sequence of tagged results.
pub open spec fn pairs_view(s: Seq<(String, SearchResult)>) -> Seq<(Seq<char>, SearchResultView)> {
    s.map_values(|p: (String, SearchResult)| (p.0@, p.1@))
}

/// The tagged results extracted from a raw item sequence, in order: items
/// the builder skips contribute nothing, the rest contribute their pair.
pub open spec fn extraction_spec(items: Seq<RawItemView>, b: ResultBuilderView) -> Seq<
    (Seq<char>, SearchResultView),
>
    decreases items.len(),
{
    if items.len() == 0 {
        Seq::empty()
    } else {
        match built_pair(b, items.first()) {
            Some(p) => seq![p] + extraction_spec(items.drop_first(), b),
            None => extraction_spec(items.drop_first(), b),
        }
    }
}

impl ResultBuilder {
    /// Construct one tagged result from a raw item, or skip it.
    pub fn build(&self, item: &RawItem) -> (r: Option<(String, SearchResult)>)
        ensures
            opt_pair_view(r) == built_pair(self@, item.deep_view()),
    {
        match (&item.title, &item.link, &item.description) {
            (Some(t), Some(l), Some(d)) => match self {
                ResultBuilder::Mojeek => match &l.href {
                    Some(h) => {
                        let engines = vec![String::from_str("mojeek")];
                        proof {
                            assert(engines.deep_view() =~= seq!["mojeek"@]);
                        }
                        let res = SearchResult::new(
                            t.inner_html.as_str(),
                            h.as_str(),
                            d.inner_html.as_str(),
                            engines,
                        );
                        Some((String::from_str("mojeek"), res))
                    },
                    None => None,
                },
                ResultBuilder::Startpage => {
                    let engines = vec![String::from_str("startpage")];
                    proof {
                        assert(engines.deep_view() =~= seq!["startpage"@]);
                    }
                    let res = SearchResult::new(
                        t.inner_html.as_str(),
                        l.inner_html.as_str(),
                        d.inner_html.as_str(),
                        engines,
                    );
                    Some((String::from_str("startpage"), res))
                },
                ResultBuilder::Yahoo => {
                    let engines = vec![String::from_str("yahoo")];
                    proof {
                        assert(engines.deep_view() =~= seq!["yahoo"@]);
                    }
                    let title: &str = match &t.aria_label {
                        Some(a) => a.as_str(),
                        None => "No Title Found",
                    };
                    let url: &str = match &l.href {
                        Some(h) => h.as_str(),
                        None => "No Link Found",
                    };
                    let res = SearchResult::new(title, url, d.inner_html.as_str(), engines);
                    Some((String::from_str("yahoo"), res))
                },
                ResultBuilder::Wikipedia { host, id } => match &l.href {
                    Some(h) => {
                        let engines = vec![id.clone()];
                        proof {
                            assert(engines.deep_view() =~= seq![id@]);
                        }
                        let mut url = host.clone();
                        url.append(h.as_str());
                        let res = SearchResult::new(
                            t.inner_html.as_str(),
                            url.as_str(),
                            d.inner_html.as_str(),
                            engines,
                        );
                        Some((id.clone(), res))
                    },
                    None => None,
                },
            },
            _ => None,
        }
    }
}

/// The number of items that carry a title element.
pub open spec fn titled_count(items: Seq<RawItemView>) -> nat
    decreases items.len(),
{
    if items.len() == 0 {
        0nat
    } else {
        (if items.first().title is Some {
            1nat
        } else {
            0nat
        }) + titled_count(items.drop_first())
    }
}

/// Extraction skips exactly the items the builder rejects: when every item
/// with a title element is constructible and every item without one is not,
/// the output holds one result per titled item, in the original document
/// order.
pub proof fn lemma_extraction_counts(items: Seq<RawItemView>, b: ResultBuilderView)
    requires
        forall|i: int|
            0 <= i < items.len() ==> (built_pair(b, #[trigger] items[i]) is Some <==> items[i].title
                is Some),
    ensures
        extraction_spec(items, b).len() == titled_count(items),
    decreases items.len(),
{
    if items.len() > 0 {
        assert(items[0] == items.first());
        assert(forall|i: int|
            0 <= i < items.drop_first().len() ==> #[trigger] items.drop_first()[i] == items[i + 1]);
        lemma_extraction_counts(items.drop_first(), b);
    }
}


impl SearchResultParser {
    /// Apply the item selector in document order and run every candidate
    /// through the builder: skipped items never abort the batch, and the
    /// output preserves document order.
    pub fn extract_results(&self, html: &str, builder: &ResultBuilder) -> (r: Vec<
        (String, SearchResult),
    >)
        ensures
            pairs_view(r@) == extraction_spec(
                raw_items_of(html@, self@.result_item, self@.title, self@.link, self@.description),
                builder@,
            ),
    {
        let items = self.extract_raw_items(html);
        let ghost iv = items.deep_view();
        let mut out: Vec<(String, SearchResult)> = Vec::new();
        proof {
            assert(iv.skip(0) =~= iv);
            assert(pairs_view(out@) + extraction_spec(iv, builder@) =~= extraction_spec(
                iv,
                builder@,
            ));
        }
        let mut i: usize = 0;
        while i < items.len()
            invariant
                0 <= i <= items@.len(),
                iv == items.deep_view(),
                iv.len() == items@.len(),
                extraction_spec(iv, builder@) == pairs_view(out@) + extraction_spec(
                    iv.skip(i as int),
                    builder@,
                ),
            decreases items@.len() - i,
        {
            let built = builder.build(&items[i]);
            proof {
                assert(items[i as int].deep_view() == iv[i as int]);
                assert(iv.skip(i as int).first() == iv[i as int]);
                assert(iv.skip(i as int).drop_first() =~= iv.skip(i + 1));
            }
            match built {
                Some(pair) => {
                    let ghost prev = out@;
                    out.push(pair);
                    proof {
                        assert(pairs_view(out@) =~= pairs_view(prev) + seq![(pair.0@, pair.1@)]);
                        assert(pairs_view(out@) + extraction_spec(iv.skip(i + 1), builder@)
                            =~= pairs_view(prev) + extraction_spec(iv.skip(i as int), builder@));
                    }
                },
                None => {},
            }
            i = i + 1;
        }
        proof {
            assert(extraction_spec(iv.skip(iv.len() as int), builder@) =~= Seq::empty());
            assert(pairs_view(out@) + Seq::<(Seq<char>, SearchResultView)>::empty() =~= pairs_view(
                out@,
            ));
        }
        out
    }
}


/// The view of a provider outcome: the tagged result views on success, the
/// error unchanged.
pub open spec fn response_view(r: Result<Vec<(String, SearchResult)>, crate::models::EngineError>) -> Result<
    Seq<(Seq<char>, SearchResultView)>,
    crate::models::EngineError,
> {
    match r {
        Ok(v) => Ok(pairs_view(v@)),
        Err(e) => Err(e),
    }
}

} // verus!
