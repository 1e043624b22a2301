use embed_gateway::backend::BackendType;
use embed_gateway::config::{
    parse_bool, parse_u16, parse_u32, parse_usize, Config, ConfigOverrides,
};

fn no_overrides() -> ConfigOverrides {
    ConfigOverrides {
        host: None,
        port: None,
        backend_url: None,
        backend_type: None,
        model_path: None,
        normalize_embeddings: None,
        batch_size: None,
        workers: None,
        queue_capacity: None,
        model_name: None,
    }
}

#[test]
fn defaults_match_the_documented_values() {
    let c = Config::defaults();
    assert_eq!(c.host, "127.0.0.1");
    assert_eq!(c.port, 3000);
    assert_eq!(c.backend_url, "http://127.0.0.1:8000");
    assert_eq!(c.backend_type, BackendType::Proxy);
    assert!(c.normalize_embeddings);
    assert_eq!(c.batch_size, 32);
    assert_eq!(c.workers, 1);
    assert_eq!(c.queue_capacity, 100);
    assert_eq!(c.model_name, "yuan-embedding-2.0-zh");
}

#[test]
fn parse_u16_accepts_ports_and_rejects_the_rest() {
    assert_eq!(parse_u16("3000"), Some(3000));
    assert_eq!(parse_u16("0"), Some(0));
    assert_eq!(parse_u16("65535"), Some(65535));
    assert_eq!(parse_u16("+80"), Some(80));
    assert_eq!(parse_u16("65536"), None);
    assert_eq!(parse_u16(""), None);
    assert_eq!(parse_u16("+"), None);
    assert_eq!(parse_u16("-1"), None);
    assert_eq!(parse_u16("80a"), None);
    assert_eq!(parse_u16(" 80"), None);
}

#[test]
fn parse_u32_accepts_counts_within_range() {
    assert_eq!(parse_u32("32"), Some(32));
    assert_eq!(parse_u32("4294967295"), Some(4294967295));
    assert_eq!(parse_u32("4294967296"), None);
    assert_eq!(parse_u32("007"), Some(7));
}

#[test]
fn parse_usize_accepts_counts() {
    assert_eq!(parse_usize("0"), Some(0));
    assert_eq!(parse_usize("100"), Some(100));
    assert_eq!(parse_usize("18446744073709551615"), Some(usize::MAX));
    assert_eq!(parse_usize("18446744073709551616"), None);
    assert_eq!(parse_usize("1e3"), None);
}

#[test]
fn parse_bool_accepts_only_the_exact_words() {
    assert_eq!(parse_bool("true"), Some(true));
    assert_eq!(parse_bool("false"), Some(false));
    assert_eq!(parse_bool("True"), None);
    assert_eq!(parse_bool("1"), None);
    assert_eq!(parse_bool(""), None);
}

#[test]
fn backend_type_parses_ignoring_ascii_case() {
    assert_eq!(BackendType::parse("proxy"), Some(BackendType::Proxy));
    assert_eq!(BackendType::parse("PROXY"), Some(BackendType::Proxy));
    assert_eq!(BackendType::parse("Candle"), Some(BackendType::Candle));
    assert_eq!(BackendType::parse("candle"), Some(BackendType::Candle));
    assert_eq!(BackendType::parse("remote"), None);
    assert_eq!(BackendType::parse(""), None);
    assert_eq!(BackendType::parse("proxies"), None);
}

#[test]
fn backend_type_defaults_to_proxy() {
    assert_eq!(BackendType::default(), BackendType::Proxy);
}

#[test]
fn overrides_replace_fields_that_parse() {
    let mut c = Config::defaults();
    let mut o = no_overrides();
    o.host = Some("0.0.0.0".to_string());
    o.port = Some("8080".to_string());
    o.backend_type = Some("candle".to_string());
    o.normalize_embeddings = Some("false".to_string());
    o.batch_size = Some("64".to_string());
    o.workers = Some("4".to_string());
    o.queue_capacity = Some("0".to_string());
    o.model_name = Some("other".to_string());
    c.apply_overrides(&o);
    assert_eq!(c.host, "0.0.0.0");
    assert_eq!(c.port, 8080);
    assert_eq!(c.backend_type, BackendType::Candle);
    assert!(!c.normalize_embeddings);
    assert_eq!(c.batch_size, 64);
    assert_eq!(c.workers, 4);
    assert_eq!(c.queue_capacity, 0);
    assert_eq!(c.model_name, "other");
    // Untouched fields keep their values.
    assert_eq!(c.backend_url, "http://127.0.0.1:8000");
}

#[test]
fn overrides_that_fail_to_parse_leave_fields_alone() {
    let mut c = Config::defaults();
    let mut o = no_overrides();
    o.port = Some("not-a-port".to_string());
    o.normalize_embeddings = Some("yes".to_string());
    o.batch_size = Some("-3".to_string());
    o.backend_type = Some("remote".to_string());
    c.apply_overrides(&o);
    assert_eq!(c.port, 3000);
    assert!(c.normalize_embeddings);
    assert_eq!(c.batch_size, 32);
    assert_eq!(c.backend_type, BackendType::Proxy);
}

#[test]
fn resolve_prefers_file_then_overrides() {
    let mut file = Config::defaults();
    file.port = 4000;
    file.workers = 2;
    let mut o = no_overrides();
    o.port = Some("5000".to_string());
    let c = Config::resolve(Some(file), &o);
    // The override wins over the file value; the file value wins over the
    // default where no override is given.
    assert_eq!(c.port, 5000);
    assert_eq!(c.workers, 2);

    let c2 = Config::resolve(None, &no_overrides());
    assert_eq!(c2.port, 3000);
    assert_eq!(c2.workers, 1);
}
