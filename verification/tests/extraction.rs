use websurfx::engines::mojeek::Mojeek;
use websurfx::engines::wikipedia::Wikipedia;
use websurfx::engines::yahoo::Yahoo;
use websurfx::engines::search_result_parser::SearchResultParser;
use websurfx::models::EngineError;

const MOJEEK_PAGE: &str = r#"<html><body>
<ul class="results-standard">
 <li><h2><a class="title"> First Title </a></h2><a class="ob" href=" https://one.example/ ">x</a><p class="s"> First description </p></li>
 <li><a class="ob" href="https://missing-title.example/">x</a><p class="s">no title element</p></li>
 <li><h2><a class="title">Second Title</a></h2><a class="ob" href="https://two.example/">x</a><p class="s">Second description</p></li>
</ul>
</body></html>"#;

#[test]
fn items_missing_a_title_are_skipped_in_order() {
    let engine = Mojeek::new().unwrap();
    let results = engine.process_response(MOJEEK_PAGE).unwrap();
    assert_eq!(results.len(), 2);
    assert_eq!(results[0].0, "mojeek");
    assert_eq!(results[0].1.title, "First Title");
    assert_eq!(results[0].1.url, "https://one.example/");
    assert_eq!(results[0].1.description, "First description");
    assert_eq!(results[0].1.engines, vec!["mojeek".to_string()]);
    assert_eq!(results[1].1.title, "Second Title");
    assert_eq!(results[1].1.url, "https://two.example/");
}

#[test]
fn a_link_without_href_is_skipped() {
    let engine = Mojeek::new().unwrap();
    let page = r#"<ul class="results-standard">
      <li><h2><a class="title">T</a></h2><a class="ob">no href</a><p class="s">D</p></li>
    </ul>"#;
    let results = engine.process_response(page).unwrap();
    assert_eq!(results.len(), 0);
}

#[test]
fn mojeek_marker_text_means_empty_result_set() {
    let engine = Mojeek::new().unwrap();
    let page = r#"<div class="result-col">No pages found matching: anything</div>"#;
    assert_eq!(
        engine.process_response(page).unwrap_err(),
        EngineError::EmptyResultSet
    );
}

#[test]
fn mojeek_marker_without_the_text_still_extracts() {
    let engine = Mojeek::new().unwrap();
    let page = r#"<div class="result-col">10 results for you</div>"#;
    assert_eq!(engine.process_response(page).unwrap().len(), 0);
}

#[test]
fn zero_items_after_a_clean_parse_is_not_an_error() {
    let engine = Mojeek::new().unwrap();
    let results = engine.process_response("<html><body><p>hi</p></body></html>").unwrap();
    assert_eq!(results.len(), 0);
}

#[test]
fn yahoo_uses_aria_label_and_fallbacks() {
    let engine = Yahoo::new().unwrap();
    let page = r#"<div class="algo"><h3 class="title"><a aria-label=" Yahoo Title " href="https://y.example/">t</a></h3><div class="compText"> Yahoo description </div></div>
<div class="algo"><h3 class="title"><a>bare</a></h3><div class="compText">d</div></div>"#;
    let results = engine.process_response(page).unwrap();
    assert_eq!(results.len(), 2);
    assert_eq!(results[0].0, "yahoo");
    assert_eq!(results[0].1.title, "Yahoo Title");
    assert_eq!(results[0].1.url, "https://y.example/");
    assert_eq!(results[0].1.description, "Yahoo description");
    assert_eq!(results[1].1.title, "No Title Found");
    assert_eq!(results[1].1.url, "No Link Found");
}

#[test]
fn wikipedia_resolves_relative_links_and_tags_by_language() {
    let engine = Wikipedia::new("en").unwrap();
    let page = r#"<ul class="mw-search-results"><li class="mw-search-result"><div class="mw-search-result-heading"><a href="/wiki/Rust">Rust</a></div><div class="searchresult">A language empowering everyone</div></li></ul>"#;
    let results = engine.process_response(page).unwrap();
    assert_eq!(results.len(), 1);
    assert_eq!(results[0].0, "wikipedia-en");
    assert_eq!(results[0].1.url, "https://en.wikipedia.org/wiki/Rust");
    assert_eq!(results[0].1.title, "Rust");
    assert_eq!(results[0].1.engines, vec!["wikipedia-en".to_string()]);
}

#[test]
fn wikipedia_no_result_marker() {
    let engine = Wikipedia::new("en").unwrap();
    let page = r#"<p class="mw-search-nonefound">nothing</p>"#;
    assert_eq!(
        engine.process_response(page).unwrap_err(),
        EngineError::EmptyResultSet
    );
}

#[test]
fn parser_rejects_empty_and_invalid_selectors() {
    assert!(SearchResultParser::new("", ".a", ".b", ".c", ".d").is_err());
    assert!(SearchResultParser::new(".a", ".b", "[[", ".c", ".d").is_err());
    assert!(SearchResultParser::new(".a", ".b", ".c", ".d", ".e").is_ok());
}

#[test]
fn find_no_result_markers_is_restartable() {
    let parser = SearchResultParser::new(".none", ".item", ".t", ".l", ".d").unwrap();
    let page = r#"<div class="none">first</div><div class="none">second</div>"#;
    let once = parser.find_no_result_markers(page);
    let twice = parser.find_no_result_markers(page);
    assert_eq!(once, vec!["first".to_string(), "second".to_string()]);
    assert_eq!(once, twice);
}
