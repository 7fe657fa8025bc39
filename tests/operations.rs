use keytar::error::KeytarError;
use keytar::keyctl::{KeyType, KeyctlReply, KeyctlRequest, SpecialId, ENOKEY};
use keytar::keyring::{
    credentials_of, delete_password, find_credentials, find_password, get_password, set_password,
    Step,
};

struct FakeKey {
    id: i32,
    kind: &'static str,
    description: String,
    payload: Vec<u8>,
}

/// A stand-in for the kernel's user keyring.
struct FakeKernel {
    ring: i32,
    next: i32,
    keys: Vec<FakeKey>,
    /// Replaces a key's payload right after its first sized read.
    swap_after_first_read: Option<(i32, Vec<u8>)>,
    /// Fails every request of this kind with this errno.
    fail_search: Option<i32>,
    calls: usize,
}

impl FakeKernel {
    fn new() -> Self {
        FakeKernel { ring: 900, next: 1000, keys: Vec::new(), swap_after_first_read: None, fail_search: None, calls: 0 }
    }

    fn add_raw(&mut self, kind: &'static str, description: &str, payload: &[u8]) -> i32 {
        let id = self.next;
        self.next += 1;
        self.keys.push(FakeKey { id, kind, description: description.to_string(), payload: payload.to_vec() });
        id
    }

    fn fill(data: &[u8], capacity: usize) -> KeyctlReply {
        let mut buffer = vec![0u8; capacity];
        let n = capacity.min(data.len());
        buffer[..n].copy_from_slice(&data[..n]);
        KeyctlReply::Filled { size: data.len(), buffer }
    }

    fn perform(&mut self, request: KeyctlRequest) -> KeyctlReply {
        self.calls += 1;
        match request {
            KeyctlRequest::KeyringId { special, create } => {
                assert_eq!(special, SpecialId::User);
                assert!(create);
                KeyctlReply::Serial(self.ring)
            }
            KeyctlRequest::AddKey { key_type, description, payload, keyring } => {
                assert_eq!(key_type, KeyType::User);
                assert_eq!(keyring, self.ring);
                if let Some(k) = self.keys.iter_mut().find(|k| k.kind == "user" && k.description == description) {
                    k.payload = payload;
                    KeyctlReply::Serial(k.id)
                } else {
                    KeyctlReply::Serial(self.add_raw("user", &description, &payload))
                }
            }
            KeyctlRequest::Search { keyring, key_type, description } => {
                assert_eq!(keyring, self.ring);
                assert_eq!(key_type, KeyType::User);
                if let Some(errno) = self.fail_search {
                    return KeyctlReply::Failed(errno);
                }
                match self.keys.iter().find(|k| k.kind == "user" && k.description == description) {
                    Some(k) => KeyctlReply::Serial(k.id),
                    None => KeyctlReply::Failed(ENOKEY),
                }
            }
            KeyctlRequest::Read { key, capacity } => {
                if key == self.ring {
                    let mut list = Vec::new();
                    for k in &self.keys {
                        list.extend_from_slice(&k.id.to_ne_bytes());
                    }
                    return Self::fill(&list, capacity);
                }
                let reply = match self.keys.iter().find(|k| k.id == key) {
                    Some(k) => Self::fill(&k.payload, capacity),
                    None => return KeyctlReply::Failed(ENOKEY),
                };
                if let Some((id, new_payload)) = self.swap_after_first_read.take() {
                    if id == key {
                        self.keys.iter_mut().find(|k| k.id == key).unwrap().payload = new_payload;
                    } else {
                        self.swap_after_first_read = Some((id, new_payload));
                    }
                }
                reply
            }
            KeyctlRequest::Describe { key, capacity } => match self.keys.iter().find(|k| k.id == key) {
                Some(k) => {
                    let text = format!("{};1000;1000;3f010000;{}\0", k.kind, k.description);
                    Self::fill(text.as_bytes(), capacity)
                }
                None => KeyctlReply::Failed(ENOKEY),
            },
            KeyctlRequest::Invalidate { key } => match self.keys.iter().position(|k| k.id == key) {
                Some(i) => {
                    self.keys.remove(i);
                    KeyctlReply::Done
                }
                None => KeyctlReply::Failed(ENOKEY),
            },
        }
    }
}

fn drive<T>(kernel: &mut FakeKernel, mut step: impl FnMut(Option<KeyctlReply>) -> Step<T>) -> Result<T, KeytarError> {
    let mut reply = None;
    loop {
        match step(reply) {
            Step::Call(request) => reply = Some(kernel.perform(request)),
            Step::Finished(result) => return result,
        }
    }
}

fn set(k: &mut FakeKernel, s: &str, a: &str, p: &str) -> Result<bool, KeytarError> {
    let mut op = set_password(s.to_string(), a.to_string(), p.to_string());
    drive(k, |r| op.step(r))
}

fn get(k: &mut FakeKernel, s: &str, a: &str) -> Result<Option<String>, KeytarError> {
    let mut op = get_password(s.to_string(), a.to_string());
    drive(k, |r| op.step(r))
}

fn delete(k: &mut FakeKernel, s: &str, a: &str) -> Result<bool, KeytarError> {
    let mut op = delete_password(s.to_string(), a.to_string());
    drive(k, |r| op.step(r))
}

fn find_one(k: &mut FakeKernel, s: &str) -> Result<Option<String>, KeytarError> {
    let mut op = find_password(s.to_string());
    drive(k, |r| op.step(r))
}

fn find_all(k: &mut FakeKernel, s: &str) -> Result<Vec<(String, String)>, KeytarError> {
    let mut op = find_credentials(s.to_string());
    drive(k, |r| op.step(r))
}

#[test]
fn example_end_to_end() {
    let mut k = FakeKernel::new();
    assert_eq!(set(&mut k, "myapp", "alice", "s3cr3t").unwrap(), true);
    assert_eq!(get(&mut k, "myapp", "alice").unwrap(), Some("s3cr3t".to_string()));
    assert_eq!(delete(&mut k, "myapp", "alice").unwrap(), true);
    assert_eq!(get(&mut k, "myapp", "alice").unwrap(), None);
}

#[test]
fn set_stores_composite_description_and_utf8_payload() {
    let mut k = FakeKernel::new();
    set(&mut k, "myapp", "alice", "pässwörd").unwrap();
    assert_eq!(k.keys.len(), 1);
    assert_eq!(k.keys[0].description, "myapp/alice");
    assert_eq!(k.keys[0].payload, "pässwörd".as_bytes().to_vec());
}

#[test]
fn round_trip_keeps_unicode_and_empty_secrets() {
    let mut k = FakeKernel::new();
    for (a, p) in [("u1", "日本語🔑"), ("u2", ""), ("u3", "line\nbreak")] {
        set(&mut k, "svc", a, p).unwrap();
        assert_eq!(get(&mut k, "svc", a).unwrap(), Some(p.to_string()));
    }
}

#[test]
fn set_overwrites_existing_entry() {
    let mut k = FakeKernel::new();
    set(&mut k, "svc", "bob", "one").unwrap();
    set(&mut k, "svc", "bob", "two").unwrap();
    assert_eq!(k.keys.len(), 1);
    assert_eq!(get(&mut k, "svc", "bob").unwrap(), Some("two".to_string()));
}

#[test]
fn delete_of_never_set_entry_is_false() {
    let mut k = FakeKernel::new();
    assert_eq!(delete(&mut k, "svc", "nobody").unwrap(), false);
}

#[test]
fn delete_then_delete_is_true_then_false() {
    let mut k = FakeKernel::new();
    set(&mut k, "svc", "carol", "x").unwrap();
    assert_eq!(delete(&mut k, "svc", "carol").unwrap(), true);
    assert_eq!(delete(&mut k, "svc", "carol").unwrap(), false);
}

#[test]
fn get_of_unset_address_is_none() {
    let mut k = FakeKernel::new();
    set(&mut k, "svc", "dave", "x").unwrap();
    assert_eq!(get(&mut k, "svc", "erin").unwrap(), None);
    assert_eq!(get(&mut k, "other", "dave").unwrap(), None);
}

#[test]
fn get_rereads_until_the_size_is_stable() {
    let mut k = FakeKernel::new();
    set(&mut k, "svc", "frank", "short").unwrap();
    let id = k.keys[0].id;
    k.swap_after_first_read = Some((id, b"a considerably longer secret".to_vec()));
    assert_eq!(get(&mut k, "svc", "frank").unwrap(), Some("a considerably longer secret".to_string()));
}

#[test]
fn get_of_non_utf8_payload_is_an_encoding_failure() {
    let mut k = FakeKernel::new();
    k.add_raw("user", "svc/bin", &[0xff, 0xfe, 0x00]);
    let e = get(&mut k, "svc", "bin").unwrap_err();
    assert!(matches!(e, KeytarError::Utf8(ref d) if d == "stored bytes are not valid UTF-8"));
}

#[test]
fn search_failure_other_than_absence_is_a_backend_failure() {
    let mut k = FakeKernel::new();
    k.fail_search = Some(13);
    let e = get(&mut k, "svc", "x").unwrap_err();
    match e {
        KeytarError::Library { name, details } => {
            assert_eq!(name, "keyctl");
            assert_eq!(details, "[ERR] keytar-rs - code: 13");
        }
        other => panic!("unexpected {:?}", other),
    }
    let e = delete(&mut k, "svc", "x").unwrap_err();
    assert!(matches!(e, KeytarError::Library { .. }));
}

#[test]
fn description_with_nul_is_refused_before_any_call() {
    let mut k = FakeKernel::new();
    let e = set(&mut k, "sv\0c", "a", "p").unwrap_err();
    assert!(matches!(e, KeytarError::InvalidArg { ref argument, .. } if argument == "description"));
    assert_eq!(k.calls, 0);
}

#[test]
fn description_longer_than_the_kernel_limit_is_refused() {
    let mut k = FakeKernel::new();
    // "s/" plus 4093 bytes is 4095 bytes: accepted.
    let fits = "x".repeat(4093);
    assert_eq!(set(&mut k, "s", &fits, "p").unwrap(), true);
    let too_long = "x".repeat(4094);
    let e = get(&mut k, "s", &too_long).unwrap_err();
    assert!(matches!(e, KeytarError::InvalidArg { .. }));
    let e = delete(&mut k, "s", &too_long).unwrap_err();
    assert!(matches!(e, KeytarError::InvalidArg { .. }));
}

#[test]
fn enumeration_returns_each_account_once() {
    let mut k = FakeKernel::new();
    let accounts = [("ann", "pw1"), ("ben", "pw2"), ("cat", "pw3")];
    for (a, p) in accounts {
        set(&mut k, "shop", a, p).unwrap();
    }
    set(&mut k, "bank", "ann", "other").unwrap();
    let mut found = find_all(&mut k, "shop").unwrap();
    found.sort();
    let expected: Vec<(String, String)> = accounts.iter().map(|(a, p)| (a.to_string(), p.to_string())).collect();
    assert_eq!(found, expected);
}

#[test]
fn enumeration_with_no_match_is_empty() {
    let mut k = FakeKernel::new();
    set(&mut k, "bank", "ann", "x").unwrap();
    assert_eq!(find_all(&mut k, "shop").unwrap(), Vec::<(String, String)>::new());
    let mut empty = FakeKernel::new();
    assert_eq!(find_all(&mut empty, "shop").unwrap(), Vec::<(String, String)>::new());
}

#[test]
fn enumeration_matches_service_as_a_substring() {
    let mut k = FakeKernel::new();
    set(&mut k, "myapp", "alice", "a").unwrap();
    set(&mut k, "app", "bob", "b").unwrap();
    let mut found = find_all(&mut k, "app").unwrap();
    found.sort();
    assert_eq!(found, vec![("alice".to_string(), "a".to_string()), ("bob".to_string(), "b".to_string())]);
}

#[test]
fn enumeration_skips_keys_of_other_kinds_and_uses_whole_label_without_slash() {
    let mut k = FakeKernel::new();
    k.add_raw("keyring", "shop/ring", b"\x01\x02\x03\x04");
    k.add_raw("user", "shop-legacy", b"old");
    set(&mut k, "shop", "a/b", "deep").unwrap();
    let found = find_all(&mut k, "shop").unwrap();
    assert_eq!(
        found,
        vec![("shop-legacy".to_string(), "old".to_string()), ("a/b".to_string(), "deep".to_string())]
    );
}

#[test]
fn enumeration_fails_whole_call_on_non_utf8_payload() {
    let mut k = FakeKernel::new();
    set(&mut k, "shop", "ok", "fine").unwrap();
    k.add_raw("user", "shop/bad", &[0xc3, 0x28]);
    assert!(matches!(find_all(&mut k, "shop"), Err(KeytarError::Utf8(_))));
}

#[test]
fn find_password_by_service_takes_first_listed_entry() {
    let mut k = FakeKernel::new();
    set(&mut k, "shop", "first", "one").unwrap();
    set(&mut k, "shop", "second", "two").unwrap();
    assert_eq!(find_one(&mut k, "shop").unwrap(), Some("one".to_string()));
    assert_eq!(find_one(&mut k, "nothing").unwrap(), None);
}

#[test]
fn find_password_with_slash_splits_on_first_slash() {
    let mut k = FakeKernel::new();
    set(&mut k, "shop", "b/c", "nested").unwrap();
    set(&mut k, "shop", "b", "plain").unwrap();
    // "shop/b/c" names service "shop" and account "b/c".
    assert_eq!(find_one(&mut k, "shop/b/c").unwrap(), Some("nested".to_string()));
    assert_eq!(find_one(&mut k, "shop/b").unwrap(), Some("plain".to_string()));
    assert_eq!(find_one(&mut k, "shop/zzz").unwrap(), None);
}

#[test]
fn service_with_slash_shares_the_composite_of_its_split() {
    let mut k = FakeKernel::new();
    set(&mut k, "a/b", "c", "first").unwrap();
    // ("a", "b/c") has the same composite, so it reads the same entry.
    assert_eq!(get(&mut k, "a", "b/c").unwrap(), Some("first".to_string()));
}

#[test]
fn a_reply_that_does_not_answer_the_request_is_a_protocol_failure() {
    let mut op = get_password("svc".to_string(), "acct".to_string());
    assert!(matches!(op.step(None), Step::Call(KeyctlRequest::KeyringId { .. })));
    let r = op.step(Some(KeyctlReply::Done));
    match r {
        Step::Finished(Err(KeytarError::Library { details, .. })) => {
            assert_eq!(details, "reply does not answer the request")
        }
        other => panic!("unexpected {:?}", other),
    }
    // Once over, every further step fails the same way.
    assert!(matches!(op.step(None), Step::Finished(Err(KeytarError::Library { .. }))));
}

#[test]
fn credentials_keep_pair_order() {
    let pairs = vec![("u1".to_string(), "p1".to_string()), ("u2".to_string(), "p2".to_string())];
    let creds = credentials_of(&pairs);
    assert_eq!(creds.len(), 2);
    assert_eq!(creds[0].username, "u1");
    assert_eq!(creds[0].password, "p1");
    assert_eq!(creds[1].username, "u2");
    assert_eq!(creds[1].password, "p2");
}
