use proxyster::fetch::{
    classify_texts, fetch, get_html_href, get_html_text, get_proxies_request, get_proxies_start,
    get_proxies_step, pick_href, try_get_html_href, FetchEvent, FetchProgress, FetchRequest,
    HtmlText,
};
use proxyster::provider::ProviderSource;
use proxyster::scraper::{
    get_html_href as chain_get_html_href, get_html_text as chain_get_html_text,
    get_proxies_advance, get_proxies_start as chain_start,
    try_get_html_href as chain_try_get_html_href, try_get_html_text, ChainProgress,
};
use proxyster::scrapper::scrapper;

const PAGE: &str = r#"<html><body>
<a class="x">no link</a>
<a class="x" href="http://a.example/list.txt">first</a>
<a class="x" href="http://b.example/2024.html">second</a>
<p class="ip">1.2.3.4:80</p>
</body></html>"#;

const LIST: &str = r#"<html><body>
<table><tr><td>1.1.1.1:1</td><td>2.2.2.2:2</td><td>3.3.3.3:3</td><td>4.4.4.4:4</td></tr></table>
</body></html>"#;

fn source(url: Option<&str>, selector: &str, regex: Option<&str>) -> ProviderSource {
    ProviderSource {
        url: url.map(|s| s.to_string()),
        selector: selector.to_string(),
        regex: regex.map(|s| s.to_string()),
    }
}

#[test]
fn pick_first_href_without_pattern() {
    let hrefs = vec![None, Some("u1".to_string()), Some("u2".to_string())];
    assert_eq!(pick_href(&hrefs, &None), Ok("u1".to_string()));
}

#[test]
fn pick_first_matching_href() {
    let hrefs = vec![Some("u1".to_string()), Some("v2".to_string())];
    assert_eq!(pick_href(&hrefs, &Some("^v".to_string())), Ok("v2".to_string()));
}

#[test]
fn pick_href_errors() {
    let hrefs = vec![Some("u1".to_string())];
    assert_eq!(
        pick_href(&hrefs, &Some("^v".to_string())),
        Err("Could not find any element with href matching regex")
    );
    assert_eq!(pick_href(&vec![None, None], &None), Err("Could not find any href"));
    assert_eq!(pick_href(&hrefs, &Some("(".to_string())), Err("Could not parse regex"));
    assert_eq!(pick_href(&vec![None], &Some("(".to_string())), Err("Could not find any href"));
}

#[test]
fn href_from_page() {
    assert_eq!(get_html_href(PAGE, "a.x", None), Ok("http://a.example/list.txt".to_string()));
    assert_eq!(
        get_html_href(PAGE, "a.x", Some(r"\d{4}\.html$".to_string())),
        Ok("http://b.example/2024.html".to_string())
    );
    assert_eq!(get_html_href(PAGE, "p", None), Err("Could not find any href"));
}

#[test]
fn href_with_bad_selector() {
    assert_eq!(try_get_html_href(PAGE, "a[", None), None);
    assert_eq!(
        try_get_html_href(PAGE, "a", None),
        Some(Ok("http://a.example/list.txt".to_string()))
    );
}

#[test]
fn text_of_few_elements() {
    match get_html_text(PAGE, "p.ip") {
        Ok(HtmlText::Text(t)) => assert_eq!(t, "1.2.3.4:80"),
        _ => panic!("expected text"),
    }
}

#[test]
fn text_of_many_elements() {
    match get_html_text(LIST, "td") {
        Ok(HtmlText::IpList(l)) => assert_eq!(l, vec!["1.1.1.1:1", "2.2.2.2:2", "3.3.3.3:3", "4.4.4.4:4"]),
        _ => panic!("expected list"),
    }
    assert!(matches!(get_html_text(LIST, "td["), Err("Could not parse selector")));
}

#[test]
fn classify_by_count() {
    match classify_texts(vec!["a".to_string(), "b".to_string()]) {
        HtmlText::Text(t) => assert_eq!(t, "ab"),
        _ => panic!(),
    }
    match classify_texts(vec!["a".to_string(), "b".to_string(), "c".to_string()]) {
        HtmlText::IpList(l) => assert_eq!(l.len(), 3),
        _ => panic!(),
    }
    match classify_texts(Vec::new()) {
        HtmlText::Text(t) => assert_eq!(t, ""),
        _ => panic!(),
    }
}

#[test]
fn fetch_walk_follows_every_link() {
    let sources = vec![
        source(Some("http://x"), "a", Some("y")),
        source(None, "a.next", None),
        source(None, "td", None),
    ];
    let state = get_proxies_start(&sources).unwrap();
    assert_eq!(state.step, 0);
    match get_proxies_request(&sources, &state) {
        FetchRequest::Href { url, selector, regex } => {
            assert_eq!(url, "http://x");
            assert_eq!(selector, "a");
            assert_eq!(regex, Some("y".to_string()));
        }
        _ => panic!(),
    }
    let state = match get_proxies_step(&sources, state, FetchEvent::Href(Ok("http://y".to_string()))) {
        FetchProgress::Continue(s) => s,
        _ => panic!(),
    };
    assert_eq!(state.step, 1);
    assert_eq!(state.url, "http://y");
    let state = match get_proxies_step(&sources, state, FetchEvent::Href(Ok("http://z".to_string()))) {
        FetchProgress::Continue(s) => s,
        _ => panic!(),
    };
    match get_proxies_request(&sources, &state) {
        FetchRequest::Text { url, selector } => {
            assert_eq!(url, "http://z");
            assert_eq!(selector, "td");
        }
        _ => panic!(),
    }
    match get_proxies_step(
        &sources,
        state,
        FetchEvent::Text(Ok(HtmlText::IpList(vec!["a".to_string(), "b".to_string(), "c".to_string()]))),
    ) {
        FetchProgress::Finished(r) => assert_eq!(r, Ok(vec!["a".to_string(), "b".to_string(), "c".to_string()])),
        _ => panic!(),
    }
}

#[test]
fn fetch_walk_single_source_and_errors() {
    let one = vec![source(Some("http://x"), "td", None)];
    let state = get_proxies_start(&one).unwrap();
    match get_proxies_request(&one, &state) {
        FetchRequest::Text { url, selector } => {
            assert_eq!(url, "http://x");
            assert_eq!(selector, "td");
        }
        _ => panic!(),
    }
    match get_proxies_step(&one, state, FetchEvent::Text(Ok(HtmlText::Text("t".to_string())))) {
        FetchProgress::Finished(r) => assert_eq!(r, Ok(vec!["t".to_string()])),
        _ => panic!(),
    }
    let state = get_proxies_start(&one).unwrap();
    match get_proxies_step(&one, state, FetchEvent::Text(Err("x"))) {
        FetchProgress::Finished(r) => assert_eq!(r, Err("Could not get proxy from html text")),
        _ => panic!(),
    }
    let two = vec![source(Some("http://x"), "a", None), source(None, "td", None)];
    let state = get_proxies_start(&two).unwrap();
    match get_proxies_step(&two, state, FetchEvent::Href(Err("x"))) {
        FetchProgress::Finished(r) => assert_eq!(r, Err("Could not get url")),
        _ => panic!(),
    }
    let none = vec![source(None, "td", None)];
    assert!(matches!(get_proxies_start(&none), Err("Could not get url")));
}

#[test]
fn fetch_filters_each_provider() {
    let scraped = vec![
        vec!["1.2.3.4:80\nbad".to_string()],
        vec![],
        vec!["x".to_string(), "5.6.7.8:90".to_string()],
    ];
    assert_eq!(fetch(scraped), vec!["1.2.3.4:80".to_string(), "5.6.7.8:90".to_string()]);
}

#[test]
fn chain_walk() {
    let sources = vec![
        source(Some("http://start"), "a.first", Some("list")),
        source(None, "a.second", None),
        source(None, "td", None),
    ];
    let state = chain_start(&sources);
    assert_eq!(state.step, 0);
    assert_eq!(state.url, "http://start");
    match get_proxies_request(&sources, &state) {
        FetchRequest::Href { url, selector, regex } => {
            assert_eq!(url, "http://start");
            assert_eq!(selector, "a.first");
            assert_eq!(regex, Some("list".to_string()));
        }
        _ => panic!(),
    }
    let state = match get_proxies_advance(&sources, state, "http://next".to_string()) {
        ChainProgress::Continue(s) => s,
        _ => panic!(),
    };
    assert_eq!(state.step, 1);
    match get_proxies_request(&sources, &state) {
        FetchRequest::Href { url, selector, regex } => {
            assert_eq!(url, "http://next");
            assert_eq!(selector, "a.second");
            assert_eq!(regex, None);
        }
        _ => panic!(),
    }
    let state = match get_proxies_advance(&sources, state, "http://last".to_string()) {
        ChainProgress::Continue(s) => s,
        _ => panic!(),
    };
    match get_proxies_request(&sources, &state) {
        FetchRequest::Text { url, selector } => {
            assert_eq!(url, "http://last");
            assert_eq!(selector, "td");
        }
        _ => panic!(),
    }
    match get_proxies_advance(&sources, state, "1.1.1.1:1".to_string()) {
        ChainProgress::Finished(v) => assert_eq!(v, vec!["1.1.1.1:1".to_string()]),
        _ => panic!(),
    }
}

#[test]
fn chain_page_reading() {
    assert_eq!(chain_get_html_text(LIST, "td"), "1.1.1.1:12.2.2.2:23.3.3.3:34.4.4.4:4");
    assert_eq!(try_get_html_text(LIST, "td["), None);
    assert_eq!(
        chain_get_html_href(PAGE, "a.x", Some("b\\.example".to_string())),
        Ok("http://b.example/2024.html".to_string())
    );
    assert_eq!(chain_try_get_html_href(PAGE, "a.x", Some("(".to_string())), None);
    assert_eq!(
        chain_try_get_html_href(PAGE, "p", Some("(".to_string())),
        Some(Err("Could not find any href"))
    );
}

#[test]
fn socks24_links() {
    let page = r#"<html><body>
<a href="http://www.socks24.org/2024/01/02-03-04-us-socks.html">a</a>
<a href="http://www.socks24.org/2024/01/02-03-04-vip-socks-5_12.html">b</a>
<a href="http://www.socks24.org/about.html">c</a>
<a>d</a>
<a href="http://www.socks24.org/2024/01/02-03-04-us-socks_07.html">e</a>
</body></html>"#;
    assert_eq!(
        scrapper(page),
        vec![
            "http://www.socks24.org/2024/01/02-03-04-us-socks.html".to_string(),
            "http://www.socks24.org/2024/01/02-03-04-vip-socks-5_12.html".to_string(),
            "http://www.socks24.org/2024/01/02-03-04-us-socks_07.html".to_string(),
        ]
    );
}

#[test]
fn fetch_of_groups_concatenates() {
    let a = vec![vec!["1.1.1.1:1\nx".to_string()]];
    let b = vec![vec!["2.2.2.2:2".to_string()], vec!["3.3.3.3:3".to_string()]];
    let mut all = a.clone();
    all.extend(b.clone());
    let mut joined = fetch(a);
    joined.extend(fetch(b));
    assert_eq!(fetch(all), joined);
}
