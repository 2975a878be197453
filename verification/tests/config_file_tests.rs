use std::io::Write;

use pilatus::config::GenericConfig;

fn write_json(dir: &tempfile::TempDir, name: &str, content: &str) -> tempfile::NamedTempFile {
    let mut f = tempfile::Builder::new()
        .prefix(name)
        .suffix(".json")
        .rand_bytes(0)
        .tempfile_in(dir.path())
        .unwrap();
    f.write_all(content.as_bytes()).unwrap();
    f.flush().unwrap();
    f
}

#[test]
fn missing_key_is_an_error() {
    let tmp = tempfile::tempdir().unwrap();
    let c = GenericConfig::new(tmp.path().to_str().unwrap()).unwrap();
    assert!(c.values().get::<String>("foo").is_err());
}

#[test]
fn config_is_read_from_json_files_but_settings() {
    let tmp = tempfile::tempdir().unwrap();
    let _develop = write_json(&tmp, "develop", r#"{ "foo":  { "bar": "Test" } }"#);
    let _settings = write_json(&tmp, "settings", r#"{ "foo":  { "bar": "Settings", "baz": 1 } }"#);
    let c = GenericConfig::new(tmp.path().to_str().unwrap()).unwrap();
    assert_eq!("Test", c.values().get::<String>("foo.bar").unwrap());
    assert!(c.values().get::<i64>("foo.baz").is_err());
}

#[test]
fn later_files_override_earlier_ones() {
    let tmp = tempfile::tempdir().unwrap();
    let _a = write_json(&tmp, "a", r#"{ "x": 1, "y": 1 }"#);
    let _b = write_json(&tmp, "b", r#"{ "y": 2 }"#);
    let c = GenericConfig::new(tmp.path().to_str().unwrap()).unwrap();
    assert_eq!(1, c.values().get::<i64>("x").unwrap());
    assert_eq!(2, c.values().get::<i64>("y").unwrap());
    let names: Vec<String> = c
        .sources()
        .iter()
        .map(|p| std::path::Path::new(p).file_name().unwrap().to_string_lossy().into_owned())
        .collect();
    assert_eq!(vec!["a.json".to_string(), "b.json".to_string()], names);
    assert_eq!(
        std::path::Path::new(tmp.path()).join("*.json"),
        std::path::PathBuf::from(c.pattern())
    );
}

#[test]
fn broken_config_file_is_invalid_input() {
    let tmp = tempfile::tempdir().unwrap();
    let _broken = write_json(&tmp, "broken", "{ not json");
    let err = GenericConfig::new(tmp.path().to_str().unwrap()).err().unwrap();
    assert_eq!(std::io::ErrorKind::InvalidInput, err.kind());
}

#[test]
fn invalid_pattern_is_invalid_input() {
    let err = GenericConfig::new("[").err().unwrap();
    assert_eq!(std::io::ErrorKind::InvalidInput, err.kind());
}
