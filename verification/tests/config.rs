use rwconfig::{ConfigFormat, Error, Origin, RWConfig, SavePlan};
use serde_json::Value;

fn load(path: &str, text: &str) -> RWConfig {
    let origin = Origin::of(path).unwrap();
    RWConfig::new(origin, serde_json::from_str(text).unwrap())
}

#[test]
fn origin_refuses_an_unsupported_extension() {
    for path in ["file.ini", "test.config.ini", "notes.txt", "no_ext", ""] {
        match Origin::of(path) {
            Err(Error::Parse(message)) => {
                assert_eq!(message, "Unsupported config extension (use .json, .yaml, .toml)")
            }
            other => panic!("expected a parse error, got {:?}", other),
        }
    }
}

#[test]
fn origin_knows_path_and_format() {
    let origin = Origin::of("conf/app.YAML").unwrap();
    assert_eq!(origin.path(), "conf/app.YAML");
    assert_eq!(origin.format(), ConfigFormat::Yaml);
    let origin = Origin::of("app.jsonc").unwrap();
    assert_eq!(origin.format(), ConfigFormat::Json);
    let origin = Origin::of("Cargo.toml").unwrap();
    assert_eq!(origin.format(), ConfigFormat::Toml);
}

#[test]
fn a_loaded_config_is_clean() {
    let cfg = load("test.config.json", r#"{"a":1,"b":2}"#);
    assert!(!cfg.is_dirty());
    assert_eq!(cfg.save_plan(), SavePlan::Nothing);
    assert_eq!(cfg.path(), "test.config.json");
    assert_eq!(cfg.format(), ConfigFormat::Json);
    assert_eq!(cfg.value(), &serde_json::from_str::<Value>(r#"{"a":1,"b":2}"#).unwrap());
    assert_eq!(cfg.get("a").and_then(Value::as_i64), Some(1));
}

#[test]
fn get_leaves_the_config_clean() {
    let cfg = load("c.json", r#"{"a":{"b":1}}"#);
    assert_eq!(cfg.get("a.b"), Some(&Value::from(1)));
    assert_eq!(cfg.get("a.c"), None);
    assert_eq!(cfg.get("a.b.c"), None);
    assert!(!cfg.is_dirty());
}

#[test]
fn set_marks_dirty_even_when_nothing_changes() {
    let mut cfg = load("c.json", r#"{"a":1}"#);
    cfg.set("a", Value::from(1)).unwrap();
    assert!(cfg.is_dirty());
    assert_eq!(cfg.save_plan(), SavePlan::Write);
    assert_eq!(cfg.get("a"), Some(&Value::from(1)));
}

#[test]
fn a_refused_set_leaves_document_and_mark_alone() {
    let mut cfg = load("c.json", r#"{"a":1}"#);
    match cfg.set("a.b", Value::from(1)) {
        Err(Error::Path(message)) => assert_eq!(message, "path parent is not an object"),
        other => panic!("expected a path error, got {:?}", other),
    }
    assert!(!cfg.is_dirty());
    assert_eq!(cfg.get("a"), Some(&Value::from(1)));
    match cfg.set("", Value::from(1)) {
        Err(Error::Path(message)) => assert_eq!(message, "empty path"),
        other => panic!("expected a path error, got {:?}", other),
    }
    assert!(!cfg.is_dirty());
    cfg.set("b", Value::from(2)).unwrap();
    assert!(cfg.set("a.b", Value::from(1)).is_err());
    assert!(cfg.is_dirty());
    assert_eq!(cfg.get("b"), Some(&Value::from(2)));
}

#[test]
fn save_of_a_clean_config_asks_for_nothing() {
    let mut cfg = load("noop.json", r#"{"x":1}"#);
    assert_eq!(cfg.save_plan(), SavePlan::Nothing);
    assert!(cfg.save_done(Ok(())).is_ok());
    assert!(!cfg.is_dirty());
    assert_eq!(cfg.save_plan(), SavePlan::Nothing);
}

#[test]
fn a_successful_save_cleans_the_config() {
    let mut cfg = load("c.json", r#"{"a":1,"b":2}"#);
    cfg.set("b", Value::from(99)).unwrap();
    cfg.set("c", Value::from("new")).unwrap();
    assert!(cfg.is_dirty());
    assert_eq!(cfg.save_plan(), SavePlan::Write);
    assert!(cfg.save_done(Ok(())).is_ok());
    assert!(!cfg.is_dirty());
    assert_eq!(cfg.save_plan(), SavePlan::Nothing);
    assert_eq!(cfg.get("b").and_then(Value::as_i64), Some(99));
    assert_eq!(cfg.get("c").and_then(Value::as_str), Some("new"));
    cfg.set("d", Value::Null).unwrap();
    assert!(cfg.is_dirty());
}

#[test]
fn a_failed_save_leaves_the_config_dirty() {
    let mut cfg = load("c.json", r#"{"a":1}"#);
    cfg.set("a", Value::from(2)).unwrap();
    match cfg.save_done(Err(Error::Parse("cannot render".into()))) {
        Err(Error::Parse(message)) => assert_eq!(message, "cannot render"),
        other => panic!("expected the parse error back, got {:?}", other),
    }
    assert!(cfg.is_dirty());
    let denied = std::io::Error::new(std::io::ErrorKind::PermissionDenied, "denied");
    match cfg.save_done(Err(Error::Io(denied))) {
        Err(Error::Io(cause)) => assert_eq!(cause.kind(), std::io::ErrorKind::PermissionDenied),
        other => panic!("expected the I/O error back, got {:?}", other),
    }
    assert!(cfg.is_dirty());
    assert_eq!(cfg.save_plan(), SavePlan::Write);
    assert_eq!(cfg.get("a"), Some(&Value::from(2)));
    assert!(cfg.save_done(Ok(())).is_ok());
    assert!(!cfg.is_dirty());
}

#[test]
fn what_is_saved_is_found_after_a_reload() {
    let mut cfg = load("c.json", r#"{"info":{"a":1}}"#);
    assert_eq!(cfg.get("info.a").and_then(Value::as_i64), Some(1));
    cfg.set("k", Value::from(42)).unwrap();
    cfg.set("info._test", Value::from(42)).unwrap();
    assert_eq!(cfg.save_plan(), SavePlan::Write);
    let text = serde_json::to_string(cfg.value()).unwrap();
    cfg.save_done(Ok(())).unwrap();
    assert_eq!(text, r#"{"info":{"a":1,"_test":42},"k":42}"#);

    let again = load(cfg.path(), &text);
    assert_eq!(again.get("k").and_then(Value::as_i64), Some(42));
    assert_eq!(again.get("info._test").and_then(Value::as_i64), Some(42));
    assert_eq!(again.get("info.a").and_then(Value::as_i64), Some(1));
    assert!(!again.is_dirty());
}
