use websurfx::dispatcher::Provider;
use websurfx::dispatcher::Registry;
use websurfx::engines::mojeek::Mojeek;
use websurfx::engines::startpage::Startpage;
use websurfx::engines::yahoo::Yahoo;
use websurfx::models::EngineError;

fn mojeek() -> Provider {
    Provider::Mojeek(Mojeek::new().unwrap())
}

fn startpage() -> Provider {
    Provider::Startpage(Startpage::new().unwrap())
}

fn yahoo() -> Provider {
    Provider::Yahoo(Yahoo::new().unwrap())
}

fn registry_of(providers: Vec<Provider>) -> Registry {
    let mut registry = Registry::new();
    for p in providers {
        registry.add(p);
    }
    registry
}

const MOJEEK_TWO_ITEMS: &str = r#"<ul class="results-standard">
 <li><h2><a class="title">A1</a></h2><a class="ob" href="https://a1.example/">x</a><p class="s">d1</p></li>
 <li><h2><a class="title">A2</a></h2><a class="ob" href="https://a2.example/">x</a><p class="s">d2</p></li>
</ul>"#;

const MOJEEK_EMPTY: &str =
    r#"<div class="result-col">No pages found matching: anything</div>"#;

const STARTPAGE_EMPTY: &str = r#"<div class="no-results">nothing</div>"#;

#[test]
fn single_provider_empty_marker_dispatches_to_empty_result_set() {
    let registry = registry_of(vec![mojeek()]);
    let outcome = registry.dispatch(&vec![Some(MOJEEK_EMPTY.to_string())]);
    assert_eq!(outcome.unwrap_err(), EngineError::EmptyResultSet);
}

#[test]
fn one_success_survives_an_empty_and_an_unexpected_sibling() {
    let registry = registry_of(vec![mojeek(), startpage(), yahoo()]);
    let responses = vec![
        Some(MOJEEK_TWO_ITEMS.to_string()),
        Some(STARTPAGE_EMPTY.to_string()),
        None,
    ];
    let results = registry.dispatch(&responses).unwrap();
    assert_eq!(results.len(), 2);
    assert_eq!(results[0].title, "A1");
    assert_eq!(results[0].engines, vec!["mojeek".to_string()]);
    assert_eq!(results[1].title, "A2");
}

#[test]
fn identical_urls_union_their_engine_tags() {
    let registry = registry_of(vec![mojeek(), yahoo()]);
    let mojeek_page = r#"<ul class="results-standard">
 <li><h2><a class="title">Shared</a></h2><a class="ob" href="https://same.example/">x</a><p class="s">from mojeek</p></li>
</ul>"#;
    let yahoo_page = r#"<div class="algo"><h3 class="title"><a aria-label="Shared too" href="https://same.example/">t</a></h3><div class="compText">from yahoo</div></div>"#;
    let responses = vec![Some(mojeek_page.to_string()), Some(yahoo_page.to_string())];
    let results = registry.dispatch(&responses).unwrap();
    assert_eq!(results.len(), 1);
    assert_eq!(results[0].url, "https://same.example/");
    assert_eq!(
        results[0].engines,
        vec!["mojeek".to_string(), "yahoo".to_string()]
    );
    // the first provider in registration order supplies the entry's text
    assert_eq!(results[0].title, "Shared");
    assert_eq!(results[0].description, "from mojeek");
}

#[test]
fn all_unexpected_failures_aggregate_to_one_failure() {
    let registry = registry_of(vec![mojeek(), startpage(), yahoo()]);
    let responses = vec![None, None, None];
    assert_eq!(
        registry.dispatch(&responses).unwrap_err(),
        EngineError::UnexpectedError
    );
}

#[test]
fn all_explicitly_empty_aggregates_to_empty_result_set() {
    let registry = registry_of(vec![mojeek(), startpage()]);
    let responses = vec![
        Some(MOJEEK_EMPTY.to_string()),
        Some(STARTPAGE_EMPTY.to_string()),
    ];
    assert_eq!(
        registry.dispatch(&responses).unwrap_err(),
        EngineError::EmptyResultSet
    );
}

#[test]
fn a_mixed_all_failure_reports_unexpected() {
    let registry = registry_of(vec![mojeek(), yahoo()]);
    let responses = vec![Some(MOJEEK_EMPTY.to_string()), None];
    assert_eq!(
        registry.dispatch(&responses).unwrap_err(),
        EngineError::UnexpectedError
    );
}

#[test]
fn a_success_with_zero_items_still_succeeds() {
    let registry = registry_of(vec![mojeek(), yahoo()]);
    let responses = vec![Some("<p>nothing here</p>".to_string()), None];
    let results = registry.dispatch(&responses).unwrap();
    assert_eq!(results.len(), 0);
}

#[test]
fn merge_keeps_registration_order_of_distinct_urls() {
    let registry = registry_of(vec![yahoo(), mojeek()]);
    let yahoo_page = r#"<div class="algo"><h3 class="title"><a aria-label="Y" href="https://y.example/">t</a></h3><div class="compText">dy</div></div>"#;
    let responses = vec![
        Some(yahoo_page.to_string()),
        Some(MOJEEK_TWO_ITEMS.to_string()),
    ];
    let results = registry.dispatch(&responses).unwrap();
    assert_eq!(results.len(), 3);
    assert_eq!(results[0].url, "https://y.example/");
    assert_eq!(results[1].url, "https://a1.example/");
    assert_eq!(results[2].url, "https://a2.example/");
}

#[test]
fn build_requests_follow_registration_order() {
    let registry = registry_of(vec![yahoo(), startpage()]);
    let ctx = websurfx::models::PageContext {
        query: "q".to_string(),
        page: 0,
        safe_search: 0,
        user_agent: "ua".to_string(),
    };
    let requests = registry.build_requests(&ctx);
    assert_eq!(requests.len(), 2);
    assert!(requests[0].url.starts_with("https://search.yahoo.com/"));
    assert!(requests[1].url.starts_with("https://startpage.com/"));
}
