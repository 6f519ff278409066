use rwconfig::Error;
use std::io;

#[test]
fn error_display() {
    assert!(Error::Parse("bad".into()).to_string().contains("parse"));
    assert!(Error::Path("empty".into()).to_string().contains("path"));
    let io_err = io::Error::new(io::ErrorKind::NotFound, "file");
    assert!(Error::Io(io_err).to_string().contains("io"));
}

#[test]
fn from_io_error() {
    let io_err = io::Error::new(io::ErrorKind::NotFound, "x");
    let e: Error = io_err.into();
    match &e {
        Error::Io(_) => {}
        _ => panic!("expected Io"),
    }
}

#[test]
fn error_source() {
    let io_err = io::Error::new(io::ErrorKind::NotFound, "file");
    let e: Error = Error::Io(io_err);
    assert!(e.source().is_some());

    let parse_err = Error::Parse("bad".into());
    assert!(parse_err.source().is_none());

    let path_err = Error::Path("empty".into());
    assert!(path_err.source().is_none());
}

#[test]
fn from_error_to_io_error() {
    let e = Error::Parse("parse failed".into());
    let io_err: io::Error = e.into();
    assert_eq!(io_err.kind(), io::ErrorKind::InvalidData);
}

#[test]
fn error_text_is_kind_colon_message() {
    assert_eq!(Error::Parse("bad".into()).to_string(), "parse: bad");
    assert_eq!(Error::Path("empty path".into()).to_string(), "path: empty path");
    let io_err = io::Error::new(io::ErrorKind::NotFound, "gone");
    assert_eq!(Error::Io(io_err).to_string(), "io: gone");
}

#[test]
fn error_source_is_the_io_error() {
    let e = Error::Io(io::Error::new(io::ErrorKind::PermissionDenied, "locked"));
    assert_eq!(e.source().map(|cause| cause.kind()), Some(io::ErrorKind::PermissionDenied));
}

#[test]
fn io_error_from_error_carries_the_text() {
    let io_err: io::Error = Error::Path("empty path".into()).into();
    assert_eq!(io_err.kind(), io::ErrorKind::InvalidData);
    assert_eq!(io_err.to_string(), "path: empty path");
}
