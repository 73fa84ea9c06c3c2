use std::io;
use std::path::PathBuf;

use flow::provider::{map_load_err, map_move_err, ProviderError};

#[test]
fn map_load_err_returns_parse_for_invalid_data() {
    let root = PathBuf::from("/tmp/flow-test");
    let err = map_load_err(
        "load_board",
        &root,
        io::Error::new(io::ErrorKind::InvalidData, "bad"),
    );

    assert!(matches!(err, ProviderError::Parse { .. }));
}

#[test]
fn map_load_err_keeps_other_failures_as_io() {
    let root = PathBuf::from("/tmp/flow-test");
    let err = map_load_err(
        "load_board",
        &root,
        io::Error::new(io::ErrorKind::PermissionDenied, "denied"),
    );
    match &err {
        ProviderError::Io { op, path, source } => {
            assert_eq!(op, "load_board");
            assert_eq!(path, &root);
            assert_eq!(source.kind(), io::ErrorKind::PermissionDenied);
        }
        _ => panic!("expected an I/O error"),
    }
    assert_eq!(err.message(), "load_board failed for /tmp/flow-test: denied");
}

#[test]
fn map_move_err_by_kind() {
    let root = PathBuf::from("/tmp/flow-test");
    match map_move_err("X-1", &root, io::Error::new(io::ErrorKind::NotFound, "gone")) {
        ProviderError::NotFound { id } => assert_eq!(id, "X-1"),
        _ => panic!("expected NotFound error"),
    }
    match map_move_err("X-1", &root, io::Error::new(io::ErrorKind::InvalidData, "bad")) {
        ProviderError::Parse { msg } => assert_eq!(msg, "bad"),
        _ => panic!("expected a parse error"),
    }
    match map_move_err("X-1", &root, io::Error::new(io::ErrorKind::Other, "disk")) {
        ProviderError::Io { op, path, source } => {
            assert_eq!(op, "move_card");
            assert_eq!(path, root);
            assert_eq!(source.kind(), io::ErrorKind::Other);
            assert_eq!(source.to_string(), "disk");
        }
        _ => panic!("expected an I/O error"),
    }
}

#[test]
fn error_messages() {
    let e = ProviderError::NotFound { id: "A-1".to_string() };
    assert_eq!(e.message(), "not found: A-1");
    let e = ProviderError::Parse { msg: "bad line".to_string() };
    assert_eq!(e.message(), "parse error: bad line");
}
