use proxyster::filters::{filter_all, filter_proxy};
use proxyster::text::{join_strings, split_by_chars, str_equal};

fn strings(v: &[&str]) -> Vec<String> {
    v.iter().map(|s| s.to_string()).collect()
}

#[test]
fn filter_keeps_proxy_lines_in_order() {
    let raw = strings(&["1.2.3.4:80\r\nnot a proxy\n10.20.30.40:8080", "255.255.255.255:9999"]);
    assert_eq!(
        filter_all(raw),
        strings(&["1.2.3.4:80", "10.20.30.40:8080", "255.255.255.255:9999"])
    );
}

#[test]
fn filter_rejects_malformed_lines() {
    let raw = strings(&[
        "1.2.3.4:12345",
        "1234.1.1.1:80",
        "1.2.3:80",
        " 1.2.3.4:80",
        "1.2.3.4:80 ",
        "1.2.3.4",
        "",
    ]);
    assert_eq!(filter_all(raw), Vec::<String>::new());
}

#[test]
fn filter_of_nothing() {
    assert_eq!(filter_all(Vec::new()), Vec::<String>::new());
}

#[test]
fn filter_single_proxy() {
    let a = filter_proxy("127.0.0.1:1".to_string());
    assert!(a.accepted);
    assert!(a.new_value.is_none());
    let b = filter_proxy("localhost:80".to_string());
    assert!(!b.accepted);
    assert!(b.new_value.is_none());
}

#[test]
fn filter_twice_is_filter_once() {
    let raw = strings(&["1.2.3.4:80\nx\r5.6.7.8:9", "junk"]);
    let once = filter_all(raw);
    let twice = filter_all(once.clone());
    assert_eq!(once, twice);
}

#[test]
fn split_keeps_empty_pieces() {
    let seps = vec!['\r', '\n'];
    assert_eq!(split_by_chars("a\r\nb", &seps), strings(&["a", "", "b"]));
    assert_eq!(split_by_chars("", &seps), strings(&[""]));
    assert_eq!(split_by_chars("\n", &seps), strings(&["", ""]));
    assert_eq!(split_by_chars("ab", &seps), strings(&["ab"]));
}

#[test]
fn join_and_compare() {
    assert_eq!(join_strings(&strings(&["a", "b", "c"]), ", "), "a, b, c");
    assert_eq!(join_strings(&Vec::new(), ", "), "");
    assert!(str_equal("abc", "abc"));
    assert!(!str_equal("abc", "abd"));
    assert!(!str_equal("abc", "ab"));
}

#[test]
fn split_undoes_join() {
    let parts = strings(&["a", "", "b c"]);
    let joined = join_strings(&parts, "\n");
    assert_eq!(split_by_chars(&joined, &vec!['\n']), parts);
}

#[test]
fn filter_of_joined_texts() {
    let texts = strings(&["1.2.3.4:80\nx", "y\r5.6.7.8:90", ""]);
    let expected = filter_all(texts.clone());
    assert_eq!(filter_all(vec![texts.join("\n")]), expected);
    assert_eq!(filter_all(vec![texts.join("\r\n")]), expected);
    let none: Vec<String> = Vec::new();
    assert_eq!(filter_all(vec![none.join("\n")]), filter_all(none.clone()));
}
