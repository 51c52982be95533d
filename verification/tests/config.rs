use proxyster::config;
use proxyster::provider::{Provider, ProviderSource};
use proxyster::value::ConfigValue;

fn s(v: &str) -> ConfigValue {
    ConfigValue::Str(v.to_string())
}

fn table(entries: Vec<(&str, ConfigValue)>) -> ConfigValue {
    ConfigValue::Table(entries.into_iter().map(|(k, v)| (k.to_string(), v)).collect())
}

fn sample(name: ConfigValue) -> ConfigValue {
    table(vec![
        ("name", name),
        (
            "sources",
            ConfigValue::Array(vec![
                table(vec![("url", s("https://example.org")), ("selector", s("a")), ("regex", s("txt$"))]),
                table(vec![("selector", s("pre"))]),
            ]),
        ),
    ])
}

#[test]
fn source_from_table() {
    let v = table(vec![("url", s("https://example.org")), ("selector", s("a"))]);
    let src = ProviderSource::from(&v);
    assert_eq!(src.url, Some("https://example.org".to_string()));
    assert_eq!(src.selector, "a");
    assert_eq!(src.regex, None);
    let copy = src.clone();
    assert_eq!(copy.url, src.url);
    assert_eq!(copy.selector, src.selector);
    assert_eq!(copy.regex, src.regex);
}

#[test]
fn provider_from_table_keeps_name() {
    let p = Provider::from(&sample(s("proxy1")));
    assert_eq!(p.name, "proxy1");
    assert_eq!(p.sources.len(), 2);
    assert_eq!(p.sources[0].url, Some("https://example.org".to_string()));
    assert_eq!(p.sources[0].regex, Some("txt$".to_string()));
    assert_eq!(p.sources[1].url, None);
    assert_eq!(p.sources[1].selector, "pre");
    let empty = Provider::from(&table(vec![("name", s("proxy1")), ("sources", ConfigValue::Array(vec![]))]));
    assert_eq!(empty.name, "proxy1");
    assert!(empty.sources.is_empty());
}

#[test]
fn config_provider_from_table_keeps_name_too() {
    let p = config::Provider::from(&sample(s("proxy1")));
    assert_eq!(p.name, "proxy1");
    assert_eq!(p.sources.len(), 2);
    assert_eq!(p.sources[1].selector, "pre");
    let c = p.sources[0].clone();
    assert_eq!(c.regex, Some("txt$".to_string()));
}

#[test]
fn value_lookup() {
    let v = table(vec![("a", s("x")), ("b", ConfigValue::Integer(1))]);
    assert!(matches!(v.get("a"), Some(ConfigValue::Str(t)) if t == "x"));
    assert!(matches!(v.get("b"), Some(ConfigValue::Integer(1))));
    assert!(v.get("c").is_none());
    assert!(s("x").get("a").is_none());
    assert_eq!(s("x").as_str(), Some("x"));
    assert_eq!(ConfigValue::Other.as_str(), None);
}
