use cosmodrome::error::{AppError, ErrorKind};

#[test]
fn new_error_is_of_app_kind() {
    let e = AppError::new("boom");
    assert_eq!(e.kind, ErrorKind::App);
    assert_eq!(e.message, "boom");
    assert_eq!(e.describe(), "(app) boom");
}

#[test]
fn error_from_str_matches_new() {
    let e: AppError = AppError::from("bad");
    assert_eq!(e.kind, ErrorKind::App);
    assert_eq!(e.message, "bad");
}

#[test]
fn kinds_have_labels() {
    assert_eq!(AppError::with_kind(ErrorKind::Io, "x").describe(), "(io) x");
    assert_eq!(AppError::with_kind(ErrorKind::MalformedTemplate, "y").describe(), "(template) y");
    assert_eq!(AppError::with_kind(ErrorKind::PathStructure, "z").describe(), "(path) z");
}

#[test]
fn missing_source_message() {
    let e = AppError::source_missing("/site/src");
    assert_eq!(e.describe(), "(app) Source directory (/site/src) not found. Nothing to build");
}
