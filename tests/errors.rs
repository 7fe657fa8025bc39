use keytar::error::{Error, ErrorKind, KeytarError};

#[test]
fn from_details_has_no_code() {
    let e = Error::from_details("Invalid description for Keyring::search");
    assert_eq!(e.code, None);
    assert_eq!(e.details.as_deref(), Some("Invalid description for Keyring::search"));
}

#[test]
fn error_text_covers_all_four_shapes() {
    let both = Error { code: Some(5), details: Some("denied".to_string()) };
    assert_eq!(both.to_string(), "[ERR] keytar-rs - code: 5, details: denied");
    let code_only = Error::from_code(-22);
    assert_eq!(code_only.to_string(), "[ERR] keytar-rs - code: -22");
    let details_only = Error::from_details("gone");
    assert_eq!(details_only.to_string(), "[ERR] keytar-rs - details: gone");
    let neither = Error { code: None, details: None };
    assert_eq!(neither.to_string(), "[ERR] keytar-rs error - no further info provided.");
}

#[test]
fn error_kinds_follow_the_taxonomy() {
    let lib = KeytarError::Library { name: "keyctl".to_string(), details: "x".to_string() };
    assert_eq!(lib.kind(), ErrorKind::BackendFailure);
    assert_eq!(KeytarError::Os("x".to_string()).kind(), ErrorKind::BackendFailure);
    assert_eq!(KeytarError::NotFound.kind(), ErrorKind::NotFound);
    assert_eq!(KeytarError::Utf8("x".to_string()).kind(), ErrorKind::EncodingFailure);
    assert_eq!(KeytarError::Utf16("x".to_string()).kind(), ErrorKind::EncodingFailure);
    let arg = KeytarError::InvalidArg { argument: "a".to_string(), details: "d".to_string() };
    assert_eq!(arg.kind(), ErrorKind::InvalidArgument);
}
