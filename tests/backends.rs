use keytar::error::KeytarError;
use keytar::keychain::{classify as keychain_classify, keychain_query, KeychainQuery, ERR_SEC_ITEM_NOT_FOUND};
use keytar::outcome::{
    delete_result, first_result, list_result, present_items, read_result, records, write_result, Native,
};
use keytar::secret_service::{
    address_attributes, classify as secret_classify, classify_search, entry_label, lookup_attributes,
    schema_name,
};
use keytar::wincred::{
    classify as win_classify, credential_records, encode_utf16, service_filter, target_name, user_name,
    WinCredential, ERROR_NOT_FOUND,
};

fn wide(s: &str) -> Vec<u16> {
    s.encode_utf16().collect()
}

#[test]
fn read_result_maps_absence_and_decodes() {
    assert_eq!(read_result(Native::Done(b"pw".to_vec())).unwrap(), Some("pw".to_string()));
    assert_eq!(read_result(Native::Missing).unwrap(), None);
    let e = read_result(Native::Done(vec![0xff])).unwrap_err();
    assert!(matches!(e, KeytarError::Utf8(ref d) if d == "Failed to convert credential to UTF-8"));
    let e = read_result(Native::Failed(KeytarError::Os("boom".to_string()))).unwrap_err();
    assert!(matches!(e, KeytarError::Os(ref m) if m == "boom"));
}

#[test]
fn delete_and_write_results() {
    assert_eq!(delete_result(Native::Done(())).unwrap(), true);
    assert_eq!(delete_result(Native::Missing).unwrap(), false);
    assert!(delete_result(Native::Failed(KeytarError::NotFound)).is_err());
    assert_eq!(write_result(Native::Done(())).unwrap(), true);
    let e = write_result(Native::Missing).unwrap_err();
    assert!(matches!(e, KeytarError::Os(ref m) if m == "the store found nothing to write to"));
}

#[test]
fn records_decode_in_order_or_fail_whole() {
    let items = vec![("a".to_string(), b"1".to_vec()), ("b".to_string(), "ü".as_bytes().to_vec())];
    assert_eq!(records(&items).unwrap(), vec![("a".to_string(), "1".to_string()), ("b".to_string(), "ü".to_string())]);
    let bad = vec![("a".to_string(), b"1".to_vec()), ("b".to_string(), vec![0xc0])];
    assert!(matches!(records(&bad), Err(KeytarError::Utf8(_))));
    assert_eq!(list_result(Native::Missing).unwrap(), Vec::<(String, String)>::new());
}

#[test]
fn present_items_keep_only_complete_items() {
    let items = vec![
        (Some("a".to_string()), Some(b"1".to_vec())),
        (None, Some(b"2".to_vec())),
        (Some("c".to_string()), None),
        (Some("d".to_string()), Some(b"4".to_vec())),
    ];
    assert_eq!(present_items(items), vec![("a".to_string(), b"1".to_vec()), ("d".to_string(), b"4".to_vec())]);
}

#[test]
fn win_target_is_nul_terminated_utf16_of_composite() {
    let mut expected = wide("myapp/alice");
    expected.push(0);
    assert_eq!(target_name("myapp", "alice").unwrap(), expected);
    let mut emoji = wide("s/🔑");
    emoji.push(0);
    assert_eq!(target_name("s", "🔑").unwrap(), emoji);
    assert_eq!(emoji.len(), 5);
}

#[test]
fn win_text_with_nul_is_refused() {
    assert_eq!(encode_utf16("a\0b"), None);
    let e = target_name("a\0", "b").unwrap_err();
    assert!(matches!(e, KeytarError::InvalidArg { ref argument, .. } if argument == "service/account"));
    let e = user_name("x\0").unwrap_err();
    assert!(matches!(e, KeytarError::InvalidArg { ref argument, .. } if argument == "username"));
    let e = service_filter("\0").unwrap_err();
    assert!(matches!(e, KeytarError::InvalidArg { ref argument, .. } if argument == "service"));
}

#[test]
fn win_filter_is_service_prefix_pattern() {
    let mut expected = wide("shop*");
    expected.push(0);
    assert_eq!(service_filter("shop").unwrap(), expected);
    assert_eq!(encode_utf16(""), Some(vec![0]));
}

#[test]
fn win_not_found_code_is_absence() {
    assert!(matches!(win_classify::<()>(ERROR_NOT_FOUND, "x".to_string()), Native::Missing));
    assert!(matches!(win_classify::<()>(5, "Access is denied.".to_string()), Native::Failed(KeytarError::Os(ref m)) if m == "Access is denied."));
    assert_eq!(ERROR_NOT_FOUND, 1168);
}

#[test]
fn win_records_skip_nameless_keep_empty_and_decode() {
    let creds = vec![
        WinCredential { user_name: None, blob: b"orphan".to_vec() },
        WinCredential { user_name: Some(wide("empty")), blob: Vec::new() },
        WinCredential { user_name: Some(wide("ålice")), blob: b"pw1".to_vec() },
        WinCredential { user_name: Some(wide("bob")), blob: "pw2✓".as_bytes().to_vec() },
    ];
    assert_eq!(
        credential_records(&creds).unwrap(),
        vec![
            ("empty".to_string(), "".to_string()),
            ("ålice".to_string(), "pw1".to_string()),
            ("bob".to_string(), "pw2✓".to_string())
        ]
    );
}

#[test]
fn win_records_fail_on_bad_blob_or_bad_name() {
    let bad_blob = vec![WinCredential { user_name: Some(wide("a")), blob: vec![0xff] }];
    assert!(matches!(credential_records(&bad_blob), Err(KeytarError::Utf8(_))));
    let bad_name = vec![WinCredential { user_name: Some(vec![0xD800]), blob: b"x".to_vec() }];
    assert!(matches!(credential_records(&bad_name), Err(KeytarError::Utf16(_))));
    // A skipped credential cannot fail the call.
    let skipped = vec![WinCredential { user_name: None, blob: vec![0xff] }];
    assert_eq!(credential_records(&skipped).unwrap(), Vec::<(String, String)>::new());
}

#[test]
fn keychain_not_found_status_is_absence() {
    assert!(matches!(keychain_classify::<()>(ERR_SEC_ITEM_NOT_FOUND, "nf".to_string()), Native::Missing));
    match keychain_classify::<()>(-25293, "auth failed".to_string()) {
        Native::Failed(KeytarError::Library { name, details }) => {
            assert_eq!(name, "security_framework");
            assert_eq!(details, "auth failed");
        }
        _ => panic!("expected a failure"),
    }
}

#[test]
fn keychain_find_splits_on_first_slash() {
    match keychain_query("svc/acct") {
        KeychainQuery::Exact { service, account } => assert_eq!((service.as_str(), account.as_str()), ("svc", "acct")),
        other => panic!("unexpected {:?}", other),
    }
    match keychain_query("svc/a/b") {
        KeychainQuery::Exact { service, account } => assert_eq!((service.as_str(), account.as_str()), ("svc", "a/b")),
        other => panic!("unexpected {:?}", other),
    }
}

#[test]
fn keychain_find_accepts_bare_service() {
    match keychain_query("svc") {
        KeychainQuery::Service(s) => assert_eq!(s, "svc"),
        other => panic!("unexpected {:?}", other),
    }
}

#[test]
fn first_result_takes_first_payload() {
    assert_eq!(first_result(Native::Done(vec![b"one".to_vec(), b"two".to_vec()])).unwrap(), Some("one".to_string()));
    assert_eq!(first_result(Native::Done(Vec::new())).unwrap(), None);
    assert_eq!(first_result(Native::Missing).unwrap(), None);
    assert!(matches!(first_result(Native::Done(vec![vec![0xff], b"ok".to_vec()])), Err(KeytarError::Utf8(_))));
    assert!(matches!(first_result(Native::Failed(KeytarError::Os("x".to_string()))), Err(KeytarError::Os(_))));
}

#[test]
fn secret_service_attributes() {
    assert_eq!(schema_name(), "org.freedesktop.Secret.Generic");
    assert_eq!(
        address_attributes("svc", "acct"),
        vec![("service".to_string(), "svc".to_string()), ("account".to_string(), "acct".to_string())]
    );
    assert_eq!(entry_label("svc", "acct"), "svc/acct");
    assert_eq!(
        lookup_attributes("svc/a/b"),
        vec![("service".to_string(), "svc".to_string()), ("account".to_string(), "a/b".to_string())]
    );
    assert_eq!(lookup_attributes("svc"), vec![("service".to_string(), "svc".to_string())]);
}

#[test]
fn secret_service_failures() {
    assert!(matches!(secret_classify::<()>(true, "gone".to_string()), Native::Missing));
    assert!(matches!(secret_classify::<()>(false, "denied".to_string()), Native::Failed(KeytarError::Library { .. })));
    assert!(matches!(
        classify_search::<()>("GDBus.Error: No such secret item at path: /x".to_string()),
        Native::Missing
    ));
    assert!(matches!(classify_search::<()>("locked".to_string()), Native::Failed(KeytarError::Os(_))));
}
