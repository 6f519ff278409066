use rwconfig::ConfigFormat;

#[test]
fn from_path_json_extensions() {
    assert_eq!(ConfigFormat::from_path("x.json"), Some(ConfigFormat::Json));
    assert_eq!(ConfigFormat::from_path("x.json5"), Some(ConfigFormat::Json));
    assert_eq!(ConfigFormat::from_path("x.JSONC"), Some(ConfigFormat::Json));
}

#[test]
fn from_path_yaml_extensions() {
    assert_eq!(ConfigFormat::from_path("x.yaml"), Some(ConfigFormat::Yaml));
    assert_eq!(ConfigFormat::from_path("x.yml"), Some(ConfigFormat::Yaml));
}

#[test]
fn from_path_toml() {
    assert_eq!(ConfigFormat::from_path("x.toml"), Some(ConfigFormat::Toml));
}

#[test]
fn from_path_unsupported() {
    assert_eq!(ConfigFormat::from_path("x.ini"), None);
    assert_eq!(ConfigFormat::from_path("x.txt"), None);
    assert_eq!(ConfigFormat::from_path("no_ext"), None);
}

#[test]
fn from_path_ignores_case() {
    assert_eq!(ConfigFormat::from_path("x.JSON"), Some(ConfigFormat::Json));
    assert_eq!(ConfigFormat::from_path("x.Json5"), Some(ConfigFormat::Json));
    assert_eq!(ConfigFormat::from_path("x.YAML"), Some(ConfigFormat::Yaml));
    assert_eq!(ConfigFormat::from_path("x.Yml"), Some(ConfigFormat::Yaml));
    assert_eq!(ConfigFormat::from_path("x.ToMl"), Some(ConfigFormat::Toml));
}

#[test]
fn from_path_takes_the_last_extension_of_the_file_name() {
    assert_eq!(ConfigFormat::from_path("dir.toml/app.config.json"), Some(ConfigFormat::Json));
    assert_eq!(ConfigFormat::from_path("/etc/app/settings.yml"), Some(ConfigFormat::Yaml));
    assert_eq!(ConfigFormat::from_path("dir.json/readme"), None);
    assert_eq!(ConfigFormat::from_path(".json"), None);
    assert_eq!(ConfigFormat::from_path("json"), None);
    assert_eq!(ConfigFormat::from_path(""), None);
    assert_eq!(ConfigFormat::from_path("x.json."), None);
}

#[test]
fn from_extension_wants_lower_case() {
    assert_eq!(ConfigFormat::from_extension("json"), Some(ConfigFormat::Json));
    assert_eq!(ConfigFormat::from_extension("json5"), Some(ConfigFormat::Json));
    assert_eq!(ConfigFormat::from_extension("jsonc"), Some(ConfigFormat::Json));
    assert_eq!(ConfigFormat::from_extension("yaml"), Some(ConfigFormat::Yaml));
    assert_eq!(ConfigFormat::from_extension("yml"), Some(ConfigFormat::Yaml));
    assert_eq!(ConfigFormat::from_extension("toml"), Some(ConfigFormat::Toml));
    assert_eq!(ConfigFormat::from_extension("JSON"), None);
    assert_eq!(ConfigFormat::from_extension("jso"), None);
    assert_eq!(ConfigFormat::from_extension("jsonx"), None);
    assert_eq!(ConfigFormat::from_extension("ini"), None);
    assert_eq!(ConfigFormat::from_extension(""), None);
}
