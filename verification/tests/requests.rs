use websurfx::engines::mojeek::Mojeek;
use websurfx::engines::startpage::Startpage;
use websurfx::engines::wikipedia::Wikipedia;
use websurfx::engines::yahoo::Yahoo;
use websurfx::models::PageContext;

fn ctx(query: &str, page: u32, safe: u8) -> PageContext {
    PageContext {
        query: query.to_string(),
        page,
        safe_search: safe,
        user_agent: "test-agent".to_string(),
    }
}

fn header<'a>(headers: &'a [(String, String)], name: &str) -> &'a str {
    headers
        .iter()
        .find(|(k, _)| k == name)
        .map(|(_, v)| v.as_str())
        .expect("header present")
}

#[test]
fn mojeek_page_zero_has_no_offset_parameter() {
    let engine = Mojeek::new().unwrap();
    let r = engine.build_request(&ctx("rust", 0, 0));
    assert!(r.url.starts_with("https://www.mojeek.com/search?q=rust&t=10&theme=dark"));
    assert!(!r.url.contains("&s="));
    assert_eq!(r.offset, 1);
}

#[test]
fn mojeek_page_one_starts_at_eleven() {
    let engine = Mojeek::new().unwrap();
    let r = engine.build_request(&ctx("rust", 1, 0));
    assert!(r.url.starts_with("https://www.mojeek.com/search?q=rust&s=11&t=10"));
    assert!(r.url.contains("&s=11&"));
    assert_eq!(r.offset, 11);
}

#[test]
fn mojeek_headers_and_cookie_mirror_the_params() {
    let engine = Mojeek::new().unwrap();
    let r = engine.build_request(&ctx("q", 0, 2));
    assert_eq!(header(&r.headers, "User-Agent"), "test-agent");
    assert_eq!(header(&r.headers, "Referer"), "https://google.com/");
    assert_eq!(
        header(&r.headers, "Content-Type"),
        "application/x-www-form-urlencoded"
    );
    let cookie = header(&r.headers, "Cookie");
    assert!(cookie.starts_with("t=10; theme=dark; "));
    assert!(cookie.ends_with("safe=1; "));
    assert!(cookie.contains(
        "qss=Bing%2CBrave%2CDuckDuckGo%2CEcosia%2CGoogle%2CLilo%2CMetager%2CQwant%2CStartpage%2CSwisscows%2CYandex%2CYep%2CYou; "
    ));
    // safe-search level 0 maps to 0, anything else to 1
    let r0 = engine.build_request(&ctx("q", 0, 0));
    assert!(header(&r0.headers, "Cookie").ends_with("safe=0; "));
    assert!(r0.url.ends_with("&safe=0"));
}

#[test]
fn startpage_always_sends_the_offset() {
    let engine = Startpage::new().unwrap();
    let r0 = engine.build_request(&ctx("rust", 0, 0));
    assert_eq!(
        r0.url,
        "https://startpage.com/do/dsearch?q=rust&num=10&start=0"
    );
    assert_eq!(r0.offset, 0);
    let r2 = engine.build_request(&ctx("rust", 2, 0));
    assert_eq!(
        r2.url,
        "https://startpage.com/do/dsearch?q=rust&num=10&start=20"
    );
    assert_eq!(r2.offset, 20);
    assert!(header(&r0.headers, "Cookie").starts_with("preferences="));
}

#[test]
fn yahoo_page_zero_omits_the_offset() {
    let engine = Yahoo::new().unwrap();
    let r0 = engine.build_request(&ctx("rust", 0, 0));
    assert_eq!(r0.url, "https://search.yahoo.com/search/?p=rust");
    assert_eq!(r0.offset, 1);
    let r1 = engine.build_request(&ctx("rust", 1, 0));
    assert_eq!(r1.url, "https://search.yahoo.com/search/?p=rust&b=11");
    assert_eq!(r1.offset, 11);
    assert_eq!(header(&r1.headers, "Cookie"), "kl=wt-wt");
}

#[test]
fn wikipedia_builds_host_relative_request() {
    let engine = Wikipedia::new("en").unwrap();
    let r = engine.build_request(&ctx("rust", 1, 0));
    assert_eq!(
        r.url,
        "https://en.wikipedia.org/w/index.php?&limit=20&offset=20&profile=default&search=rust&title=Special:Search&ns0=1"
    );
    assert_eq!(r.offset, 20);
    assert_eq!(header(&r.headers, "Referer"), "https://en.wikipedia.org");
    assert_eq!(header(&r.headers, "User-Agent"), "test-agent");
    assert_eq!(r.headers.len(), 2);
}
