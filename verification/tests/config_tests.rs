use std::path::PathBuf;

use pilatus::config::{
    file_context_message, select_config_files, with_file_context, GenericConfig, IoErrorKind,
    TokioFileService,
};
use pilatus::device::DeviceId;

#[test]
fn join_two_relative_paths() {
    let config = GenericConfig::new(".").unwrap();
    assert_eq!(
        PathBuf::from("./test"),
        PathBuf::from(config.instrument_relative("./test")),
    )
}

#[test]
fn relative_path_is_taken_below_root() {
    let config = GenericConfig::new("no_such_directory").unwrap();
    assert_eq!(
        PathBuf::from("no_such_directory/sub/file.txt"),
        PathBuf::from(config.instrument_relative("sub/file.txt"))
    );
}

#[test]
fn absolute_path_stays_unchanged() {
    let config = GenericConfig::new("no_such_directory").unwrap();
    assert_eq!("/etc/hosts", config.instrument_relative("/etc/hosts"));
}

#[test]
fn settings_file_is_no_config_file() {
    let entries = vec![
        Ok("root/a.json".to_string()),
        Ok("root/settings.json".to_string()),
        Ok("root/b.json".to_string()),
    ];
    let files = select_config_files(entries).unwrap();
    assert_eq!(vec!["root/a.json".to_string(), "root/b.json".to_string()], files);
}

#[test]
fn first_walk_error_is_returned() {
    let entries = vec![
        Ok("root/a.json".to_string()),
        Err(std::io::Error::new(std::io::ErrorKind::PermissionDenied, "first")),
        Err(std::io::Error::new(std::io::ErrorKind::Other, "second")),
    ];
    let err = select_config_files(entries).err().unwrap();
    assert_eq!(std::io::ErrorKind::PermissionDenied, err.kind());
    assert_eq!("first", err.to_string());
}

#[test]
fn missing_file_is_reported_by_path() {
    let e = with_file_context(
        "data/missing.txt",
        std::io::Error::new(std::io::ErrorKind::NotFound, "os error"),
    );
    assert_eq!(std::io::ErrorKind::NotFound, e.kind());
    assert_eq!("data/missing.txt", e.to_string());
}

#[test]
fn other_io_errors_stay() {
    let e = with_file_context(
        "data/file.txt",
        std::io::Error::new(std::io::ErrorKind::PermissionDenied, "denied"),
    );
    assert_eq!(std::io::ErrorKind::PermissionDenied, e.kind());
    assert_eq!("denied", e.to_string());
    assert_eq!(Some("x".to_string()), file_context_message("x", IoErrorKind::NotFound));
    assert_eq!(None, file_context_message("x", IoErrorKind::Other));
}

#[test]
fn file_service_of_a_device_is_below_root() {
    let builder = TokioFileService::builder("recipes".to_string());
    let id = DeviceId(0x0123456789abcdef0123456789abcdef);
    let service = builder.build(id);
    assert_eq!(
        PathBuf::from("recipes/01234567-89ab-cdef-0123-456789abcdef"),
        PathBuf::from(service.root())
    );
    assert_eq!(
        PathBuf::from("recipes/01234567-89ab-cdef-0123-456789abcdef/img/a.png"),
        PathBuf::from(service.path_of("img/a.png"))
    );
}
