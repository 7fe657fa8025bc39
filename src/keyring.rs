//! The credential operations on the kernel keyring.
//!
//! Each operation is a value that a driver steps: it hands in the reply to
//! the last request and gets back the next request, or the result. Every
//! operation first resolves the user's persistent keyring, creating it if
//! needed. An entry is a `user` key whose description is the composite
//! `service/account` and whose payload is the secret's UTF-8 bytes.

use vstd::prelude::*;
use vstd::string::*;
use vstd::utf8::{
    decode_utf8, encode_utf8, encode_utf8_decode_utf8, encode_utf8_valid_utf8, valid_utf8,
};
use crate::address::{
    account_part, char_free, composite, compose, decompose, is_first, lemma_decompose_composite,
    lemma_first_unique, service_part, slash_free,
};
use crate::error::KeytarError;
use crate::keyctl::{
    ENOKEY, Fill, Key, KeyType, KeyctlReply, KeyctlRequest, Keyring, SpecialId, after_fields, contains_text,
    description_refusal, encoding_failure, first_field, is_description_refusal, is_encoding_failure,
    is_infix, is_keyctl_failure, is_protocol_failure, is_valid_description, key_ids, keyctl_failure,
    native_word, parse_description, protocol_failure, settle, strip_terminator, utf8_text,
    valid_description, without_terminator,
};

verus! {

/// What an operation asks for next.
#[derive(Debug)]
pub enum Step<T> {
    /// Make this native call and hand back its reply.
    Call(KeyctlRequest),
    /// The operation is over, with this result.
    Finished(Result<T, KeytarError>),
}

/// Whether `s` asks to resolve the user's keyring, creating it if needed.
pub open spec fn asks_user_keyring<T>(s: Step<T>) -> bool {
    s matches Step::Call(KeyctlRequest::KeyringId { special, create }) && special
        == SpecialId::User && create
}

/// Whether `s` asks to add a user key with this description and payload.
pub open spec fn asks_add<T>(s: Step<T>, ring: i32, desc: Seq<char>, payload: Seq<u8>) -> bool {
    s matches Step::Call(KeyctlRequest::AddKey { key_type, description, payload: p, keyring })
        && key_type == KeyType::User && description@ == desc && p@ == payload && keyring == ring
}

/// Whether `s` asks for the user key with exactly this description.
pub open spec fn asks_search<T>(s: Step<T>, ring: i32, desc: Seq<char>) -> bool {
    s matches Step::Call(KeyctlRequest::Search { keyring, key_type, description })
        && keyring == ring && key_type == KeyType::User && description@ == desc
}

/// Whether `s` asks to read a key into a buffer of `cap` bytes.
pub open spec fn asks_read<T>(s: Step<T>, id: i32, cap: usize) -> bool {
    s matches Step::Call(KeyctlRequest::Read { key, capacity }) && key == id && capacity == cap
}

/// Whether `s` asks to describe a key into a buffer of `cap` bytes.
pub open spec fn asks_describe<T>(s: Step<T>, id: i32, cap: usize) -> bool {
    s matches Step::Call(KeyctlRequest::Describe { key, capacity }) && key == id && capacity == cap
}

/// Whether `s` asks to invalidate a key.
pub open spec fn asks_invalidate<T>(s: Step<T>, id: i32) -> bool {
    s matches Step::Call(KeyctlRequest::Invalidate { key }) && key == id
}

/// Whether `s` ends the operation with a failure for this errno.
pub open spec fn fails_with_errno<T>(s: Step<T>, errno: i32) -> bool {
    s matches Step::Finished(Err(e)) && is_keyctl_failure(e, errno)
}

/// Whether `s` ends the operation because a reply did not fit.
pub open spec fn fails_protocol<T>(s: Step<T>) -> bool {
    s matches Step::Finished(Err(e)) && is_protocol_failure(e)
}

/// Whether `s` refuses the address before any native call.
pub open spec fn refuses_address<T>(s: Step<T>) -> bool {
    s matches Step::Finished(Err(e)) && is_description_refusal(e)
}

/// The result of reading a secret's bytes: its text, or an encoding failure.
pub open spec fn gives_text(s: Step<Option<String>>, bytes: Seq<u8>) -> bool {
    if valid_utf8(bytes) {
        s matches Step::Finished(Ok(Some(t))) && t@ == decode_utf8(bytes)
    } else {
        s matches Step::Finished(Err(e)) && is_encoding_failure(e)
    }
}

fn user_keyring<T>() -> (r: Step<T>)
    ensures
        asks_user_keyring(r),
{
    Step::Call(Keyring::from_special_id(SpecialId::User, true))
}

/// Where a set operation stands.
#[derive(Debug, Clone, Copy, PartialEq, Eq, Structural)]
pub enum SetStage {
    Start,
    AwaitKeyring,
    AwaitAdd,
    Over,
}

/// Stores a secret under a service and an account, replacing any secret
/// stored there before.
#[derive(Debug)]
pub struct SetPassword {
    pub service: String,
    pub account: String,
    pub password: String,
    pub stage: SetStage,
}

/// The set operation for an address and a secret, not yet started.
pub fn set_password(service: String, account: String, password: String) -> (r: SetPassword)
    ensures
        r.service == service,
        r.account == account,
        r.password == password,
        r.stage == SetStage::Start,
{
    SetPassword { service, account, password, stage: SetStage::Start }
}

impl SetPassword {
    /// The key description this operation stores under.
    pub open spec fn description(&self) -> Seq<char> {
        composite(self.service@, self.account@)
    }

    /// Whether `reply` is what this stage waits for.
    pub open spec fn answers(&self, reply: Option<KeyctlReply>) -> bool {
        match self.stage {
            SetStage::Start => reply is None,
            SetStage::AwaitKeyring | SetStage::AwaitAdd => reply matches Some(
                KeyctlReply::Serial(_),
            ) || reply matches Some(KeyctlReply::Failed(_)),
            SetStage::Over => false,
        }
    }

    /// Advances by one reply (none to begin with).
    pub fn step(&mut self, reply: Option<KeyctlReply>) -> (r: Step<bool>)
        ensures
            final(self).service == old(self).service,
            final(self).account == old(self).account,
            final(self).password == old(self).password,
            r is Finished <==> final(self).stage == SetStage::Over,
            !old(self).answers(reply) ==> fails_protocol(r),
            (old(self).stage == SetStage::Start && reply is None) ==> if valid_description(old(self).description()) {
                asks_user_keyring(r)
            } else {
                refuses_address(r)
            },
            (old(self).stage == SetStage::Start && reply is None) ==> final(self).stage == if valid_description(
                old(self).description(),
            ) {
                SetStage::AwaitKeyring
            } else {
                SetStage::Over
            },
            old(self).stage == SetStage::AwaitKeyring ==> (reply matches Some(
                KeyctlReply::Serial(ring),
            ) ==> asks_add(r, ring, old(self).description(), encode_utf8(old(self).password@))
                && final(self).stage == SetStage::AwaitAdd),
            old(self).stage == SetStage::AwaitAdd ==> (reply matches Some(KeyctlReply::Serial(_))
                ==> r matches Step::Finished(Ok(true))),
            (old(self).stage == SetStage::AwaitKeyring || old(self).stage == SetStage::AwaitAdd)
                ==> (reply matches Some(KeyctlReply::Failed(errno)) ==> fails_with_errno(r, errno)),
    {
        let stage = self.stage;
        match (stage, reply) {
            (SetStage::Start, None) => {
                let desc = compose(self.service.as_str(), self.account.as_str());
                if is_valid_description(desc.as_str()) {
                    self.stage = SetStage::AwaitKeyring;
                    user_keyring()
                } else {
                    self.stage = SetStage::Over;
                    Step::Finished(Err(description_refusal()))
                }
            },
            (SetStage::AwaitKeyring, Some(KeyctlReply::Serial(ring))) => {
                let desc = compose(self.service.as_str(), self.account.as_str());
                self.stage = SetStage::AwaitAdd;
                Step::Call(Keyring::from_id(ring).add_key(desc, self.password.as_str()))
            },
            (SetStage::AwaitAdd, Some(KeyctlReply::Serial(_))) => {
                self.stage = SetStage::Over;
                Step::Finished(Ok(true))
            },
            (SetStage::AwaitKeyring, Some(KeyctlReply::Failed(errno)))
            | (SetStage::AwaitAdd, Some(KeyctlReply::Failed(errno))) => {
                self.stage = SetStage::Over;
                Step::Finished(Err(keyctl_failure(errno)))
            },
            _ => {
                self.stage = SetStage::Over;
                Step::Finished(Err(protocol_failure()))
            },
        }
    }
}

/// Where a get operation stands.
#[derive(Debug, Clone, Copy, PartialEq, Eq, Structural)]
pub enum GetStage {
    Start,
    AwaitKeyring,
    AwaitSearch,
    /// Reading this key's payload.
    AwaitRead(i32),
    Over,
}

/// Reads the secret stored under a service and an account. Absence is no
/// failure: it gives `None`.
#[derive(Debug)]
pub struct GetPassword {
    pub service: String,
    pub account: String,
    pub stage: GetStage,
}

/// The get operation for an address, not yet started.
pub fn get_password(service: String, account: String) -> (r: GetPassword)
    ensures
        r.service == service,
        r.account == account,
        r.stage == GetStage::Start,
{
    GetPassword { service, account, stage: GetStage::Start }
}

impl GetPassword {
    /// The key description this operation looks for.
    pub open spec fn description(&self) -> Seq<char> {
        composite(self.service@, self.account@)
    }

    /// Whether `reply` is what this stage waits for.
    pub open spec fn answers(&self, reply: Option<KeyctlReply>) -> bool {
        match self.stage {
            GetStage::Start => reply is None,
            GetStage::AwaitKeyring | GetStage::AwaitSearch => reply matches Some(
                KeyctlReply::Serial(_),
            ) || reply matches Some(KeyctlReply::Failed(_)),
            GetStage::AwaitRead(_) => reply matches Some(KeyctlReply::Filled { .. })
                || reply matches Some(KeyctlReply::Failed(_)),
            GetStage::Over => false,
        }
    }

    /// Advances by one reply (none to begin with).
    pub fn step(&mut self, reply: Option<KeyctlReply>) -> (r: Step<Option<String>>)
        ensures
            get_step(*old(self), *final(self), reply, r),
    {
        let stage = self.stage;
        match (stage, reply) {
            (GetStage::Start, None) => {
                let desc = compose(self.service.as_str(), self.account.as_str());
                if is_valid_description(desc.as_str()) {
                    self.stage = GetStage::AwaitKeyring;
                    user_keyring()
                } else {
                    self.stage = GetStage::Over;
                    Step::Finished(Err(description_refusal()))
                }
            },
            (GetStage::AwaitKeyring, Some(KeyctlReply::Serial(ring))) => {
                let desc = compose(self.service.as_str(), self.account.as_str());
                self.stage = GetStage::AwaitSearch;
                Step::Call(Keyring::from_id(ring).search(desc))
            },
            (GetStage::AwaitSearch, Some(KeyctlReply::Serial(key))) => {
                self.stage = GetStage::AwaitRead(key);
                Step::Call(Key(key).read())
            },
            (GetStage::AwaitSearch, Some(KeyctlReply::Failed(errno))) if errno == ENOKEY => {
                self.stage = GetStage::Over;
                Step::Finished(Ok(None))
            },
            (GetStage::AwaitRead(key), Some(KeyctlReply::Filled { size, buffer })) => {
                match settle(size, buffer) {
                    Fill::Complete(bytes) => {
                        self.stage = GetStage::Over;
                        Step::Finished(secret_text(bytes))
                    },
                    Fill::Grow(capacity) => Step::Call(Key(key).read_bytes(capacity)),
                }
            },
            (GetStage::AwaitKeyring, Some(KeyctlReply::Failed(errno)))
            | (GetStage::AwaitSearch, Some(KeyctlReply::Failed(errno)))
            | (GetStage::AwaitRead(_), Some(KeyctlReply::Failed(errno))) => {
                self.stage = GetStage::Over;
                Step::Finished(Err(keyctl_failure(errno)))
            },
            _ => {
                self.stage = GetStage::Over;
                Step::Finished(Err(protocol_failure()))
            },
        }
    }
}

/// What one step of a get operation does.
pub open spec fn get_step(
    old: GetPassword,
    new: GetPassword,
    reply: Option<KeyctlReply>,
    r: Step<Option<String>>,
) -> bool {
    &&& new.service == old.service
    &&& new.account == old.account
    &&& r is Finished <==> new.stage == GetStage::Over
    &&& !old.answers(reply) ==> fails_protocol(r)
    &&& (old.stage == GetStage::Start && reply is None) ==> if valid_description(old.description()) {
        asks_user_keyring(r)
    } else {
        refuses_address(r)
    }
    &&& (old.stage == GetStage::Start && reply is None) ==> new.stage == if valid_description(
        old.description(),
    ) {
        GetStage::AwaitKeyring
    } else {
        GetStage::Over
    }
    &&& old.stage == GetStage::AwaitKeyring ==> (reply matches Some(KeyctlReply::Serial(ring))
        ==> asks_search(r, ring, old.description()) && new.stage == GetStage::AwaitSearch)
    &&& old.stage == GetStage::AwaitSearch ==> (reply matches Some(KeyctlReply::Serial(key))
        ==> asks_read(r, key, 0) && new.stage == GetStage::AwaitRead(key))
    // No key under the description: absence, not a failure.
    &&& old.stage == GetStage::AwaitSearch ==> (reply == Some(KeyctlReply::Failed(ENOKEY))
        ==> r matches Step::Finished(Ok(None)))
    // The payload is read until the buffer held all of it.
    &&& old.stage matches GetStage::AwaitRead(key) ==> (reply matches Some(
        KeyctlReply::Filled { size, buffer },
    ) ==> if size <= buffer@.len() {
        gives_text(r, buffer@.take(size as int))
    } else {
        asks_read(r, key, size) && new.stage == old.stage
    })
    &&& (old.stage == GetStage::AwaitKeyring || old.stage is AwaitRead) ==> (reply matches Some(
        KeyctlReply::Failed(errno),
    ) ==> fails_with_errno(r, errno))
    &&& old.stage == GetStage::AwaitSearch ==> (reply matches Some(KeyctlReply::Failed(errno))
        ==> (errno != ENOKEY ==> fails_with_errno(r, errno)))
}

/// What one step of a delete operation does.
pub open spec fn delete_step(
    old: DeletePassword,
    new: DeletePassword,
    reply: Option<KeyctlReply>,
    r: Step<bool>,
) -> bool {
    &&& new.service == old.service
    &&& new.account == old.account
    &&& r is Finished <==> new.stage == DeleteStage::Over
    &&& !old.answers(reply) ==> fails_protocol(r)
    &&& (old.stage == DeleteStage::Start && reply is None) ==> if valid_description(
        old.description(),
    ) {
        asks_user_keyring(r) && new.stage == DeleteStage::AwaitKeyring
    } else {
        refuses_address(r) && new.stage == DeleteStage::Over
    }
    &&& old.stage == DeleteStage::AwaitKeyring ==> (reply matches Some(KeyctlReply::Serial(ring))
        ==> asks_search(r, ring, old.description()) && new.stage == DeleteStage::AwaitSearch)
    &&& old.stage == DeleteStage::AwaitSearch ==> (reply matches Some(KeyctlReply::Serial(key))
        ==> asks_invalidate(r, key) && new.stage == DeleteStage::AwaitInvalidate)
    // No key under the description: nothing to delete, not a failure.
    &&& old.stage == DeleteStage::AwaitSearch ==> (reply == Some(KeyctlReply::Failed(ENOKEY))
        ==> r matches Step::Finished(Ok(false)))
    &&& old.stage == DeleteStage::AwaitInvalidate ==> (reply == Some(KeyctlReply::Done)
        ==> r matches Step::Finished(Ok(true)))
    &&& (old.stage == DeleteStage::AwaitKeyring || old.stage == DeleteStage::AwaitInvalidate)
        ==> (reply matches Some(KeyctlReply::Failed(errno)) ==> fails_with_errno(r, errno))
    &&& old.stage == DeleteStage::AwaitSearch ==> (reply matches Some(KeyctlReply::Failed(errno))
        ==> (errno != ENOKEY ==> fails_with_errno(r, errno)))
}

/// A secret's bytes as text.
fn secret_text(bytes: Vec<u8>) -> (r: Result<Option<String>, KeytarError>)
    ensures
        gives_text(Step::Finished(r), bytes@),
{
    match utf8_text(bytes.as_slice()) {
        Some(t) => Ok(Some(t)),
        None => Err(encoding_failure()),
    }
}

/// Where a delete operation stands.
#[derive(Debug, Clone, Copy, PartialEq, Eq, Structural)]
pub enum DeleteStage {
    Start,
    AwaitKeyring,
    AwaitSearch,
    AwaitInvalidate,
    Over,
}

/// Removes the secret stored under a service and an account: `true` when
/// there was one, `false` when there was none.
#[derive(Debug)]
pub struct DeletePassword {
    pub service: String,
    pub account: String,
    pub stage: DeleteStage,
}

/// The delete operation for an address, not yet started.
pub fn delete_password(service: String, account: String) -> (r: DeletePassword)
    ensures
        r.service == service,
        r.account == account,
        r.stage == DeleteStage::Start,
{
    DeletePassword { service, account, stage: DeleteStage::Start }
}

impl DeletePassword {
    /// The key description this operation removes.
    pub open spec fn description(&self) -> Seq<char> {
        composite(self.service@, self.account@)
    }

    /// Whether `reply` is what this stage waits for.
    pub open spec fn answers(&self, reply: Option<KeyctlReply>) -> bool {
        match self.stage {
            DeleteStage::Start => reply is None,
            DeleteStage::AwaitKeyring | DeleteStage::AwaitSearch => reply matches Some(
                KeyctlReply::Serial(_),
            ) || reply matches Some(KeyctlReply::Failed(_)),
            DeleteStage::AwaitInvalidate => reply matches Some(KeyctlReply::Done)
                || reply matches Some(KeyctlReply::Failed(_)),
            DeleteStage::Over => false,
        }
    }

    /// Advances by one reply (none to begin with).
    pub fn step(&mut self, reply: Option<KeyctlReply>) -> (r: Step<bool>)
        ensures
            delete_step(*old(self), *final(self), reply, r),
    {
        let stage = self.stage;
        match (stage, reply) {
            (DeleteStage::Start, None) => {
                let desc = compose(self.service.as_str(), self.account.as_str());
                if is_valid_description(desc.as_str()) {
                    self.stage = DeleteStage::AwaitKeyring;
                    user_keyring()
                } else {
                    self.stage = DeleteStage::Over;
                    Step::Finished(Err(description_refusal()))
                }
            },
            (DeleteStage::AwaitKeyring, Some(KeyctlReply::Serial(ring))) => {
                let desc = compose(self.service.as_str(), self.account.as_str());
                self.stage = DeleteStage::AwaitSearch;
                Step::Call(Keyring::from_id(ring).search(desc))
            },
            (DeleteStage::AwaitSearch, Some(KeyctlReply::Serial(key))) => {
                self.stage = DeleteStage::AwaitInvalidate;
                Step::Call(Key(key).invalidate())
            },
            (DeleteStage::AwaitSearch, Some(KeyctlReply::Failed(errno))) if errno == ENOKEY => {
                self.stage = DeleteStage::Over;
                Step::Finished(Ok(false))
            },
            (DeleteStage::AwaitInvalidate, Some(KeyctlReply::Done)) => {
                self.stage = DeleteStage::Over;
                Step::Finished(Ok(true))
            },
            (DeleteStage::AwaitKeyring, Some(KeyctlReply::Failed(errno)))
            | (DeleteStage::AwaitSearch, Some(KeyctlReply::Failed(errno)))
            | (DeleteStage::AwaitInvalidate, Some(KeyctlReply::Failed(errno))) => {
                self.stage = DeleteStage::Over;
                Step::Finished(Err(keyctl_failure(errno)))
            },
            _ => {
                self.stage = DeleteStage::Over;
                Step::Finished(Err(protocol_failure()))
            },
        }
    }
}

/// Whether a described key is a credential of `service`: a `user` key whose
/// description contains `service`.
pub open spec fn matches_service(service: Seq<char>, text: Seq<char>) -> bool {
    &&& first_field(text) == "user"@
    &&& after_fields(text, 4) is Some
    &&& is_infix(service, after_fields(text, 4)->0)
}

/// The identifier of an entry with this description: its account part, or
/// the whole description when it holds no `/`.
pub open spec fn identifier(label: Seq<char>) -> Seq<char> {
    match account_part(label) {
        Some(a) => a,
        None => label,
    }
}

/// The record of a matching key, from its describe text and its payload.
pub open spec fn record_of(text: Seq<char>, payload: Seq<u8>) -> (Seq<char>, Seq<char>) {
    (identifier(after_fields(text, 4)->0), decode_utf8(payload))
}

/// The records that a listing of described keys gives for `service`, in
/// the listing's order. Each entry is a key's describe text and, for a
/// matching key, its payload.
pub open spec fn records_of(service: Seq<char>, entries: Seq<(Seq<char>, Seq<u8>)>) -> Seq<
    (Seq<char>, Seq<char>),
>
    decreases entries.len(),
{
    if entries.len() == 0 {
        seq![]
    } else {
        let rest = records_of(service, entries.drop_last());
        let e = entries.last();
        if matches_service(service, e.0) {
            rest.push(record_of(e.0, e.1))
        } else {
            rest
        }
    }
}

/// The text of each record.
pub open spec fn pairs_view(v: Seq<(String, String)>) -> Seq<(Seq<char>, Seq<char>)> {
    v.map_values(|p: (String, String)| (p.0@, p.1@))
}

/// The identifier of an entry with this description.
pub fn identifier_of(label: &str) -> (r: String)
    ensures
        r@ == identifier(label@),
{
    let (_, account) = decompose(label);
    match account {
        Some(a) => a,
        None => label.to_owned(),
    }
}

/// Where an enumeration stands.
#[derive(Debug, Clone, Copy, PartialEq, Eq, Structural)]
pub enum ListStage {
    Start,
    AwaitKeyring,
    /// Reading this keyring's key ids.
    AwaitList(i32),
    AwaitDescribe,
    AwaitPayload,
    Over,
}

/// The progress of an enumeration.
struct ListState {
    stage: ListStage,
    keys: Vec<i32>,
    index: usize,
    /// The describe text and description of the key being read.
    text: String,
    label: String,
    found: Vec<(String, String)>,
    /// Each key described so far: its text and, if it matched, its payload.
    seen: Ghost<Seq<(Seq<char>, Seq<u8>)>>,
}

/// Lists the credentials stored for a service: every `user` key whose
/// description contains the service, as (identifier, secret) pairs in the
/// keyring's order. No match gives an empty list.
pub struct FindCredentials {
    service: String,
    state: ListState,
}

/// The enumeration for a service, not yet started.
pub fn find_credentials(service: String) -> (r: FindCredentials)
    ensures
        r.service() == service@,
        r.stage() == ListStage::Start,
        r.seen() == Seq::<(Seq<char>, Seq<u8>)>::empty(),
{
    let found: Vec<(String, String)> = Vec::new();
    assert(pairs_view(found@) =~= Seq::empty());
    FindCredentials {
        service,
        state: ListState {
            stage: ListStage::Start,
            keys: Vec::new(),
            index: 0,
            text: String::new(),
            label: String::new(),
            found,
            seen: Ghost(Seq::empty()),
        },
    }
}

proof fn lemma_records_push(service: Seq<char>, seen: Seq<(Seq<char>, Seq<u8>)>, e: (Seq<char>, Seq<u8>))
    ensures
        records_of(service, seen.push(e)) == if matches_service(service, e.0) {
            records_of(service, seen).push(record_of(e.0, e.1))
        } else {
            records_of(service, seen)
        },
{
    assert(seen.push(e).drop_last() =~= seen);
}

/// The step after a key is done with: describe the next one, or finish.
fn next_key(st: &mut ListState) -> (r: Step<Vec<(String, String)>>)
    requires
        old(st).index <= old(st).keys@.len(),
    ensures
        final(st).keys == old(st).keys,
        final(st).index == old(st).index,
        final(st).seen == old(st).seen,
        final(st).text == old(st).text,
        final(st).label == old(st).label,
        old(st).index < old(st).keys@.len() ==> final(st).stage == ListStage::AwaitDescribe
            && asks_describe(r, old(st).keys@[old(st).index as int], 0) && final(st).found
            == old(st).found,
        old(st).index == old(st).keys@.len() ==> final(st).stage == ListStage::Over && (
        r matches Step::Finished(Ok(v)) && v == old(st).found),
{
    if st.index < st.keys.len() {
        st.stage = ListStage::AwaitDescribe;
        Step::Call(Key(st.keys[st.index]).describe(0))
    } else {
        st.stage = ListStage::Over;
        let mut found = Vec::new();
        std::mem::swap(&mut found, &mut st.found);
        Step::Finished(Ok(found))
    }
}

impl FindCredentials {
    #[verifier::type_invariant]
    spec fn wf(&self) -> bool {
        let st = self.state;
        &&& st.keys@.len() <= usize::MAX
        &&& st.index <= st.keys@.len()
        &&& st.seen@.len() == st.index
        &&& st.stage != ListStage::Over ==> pairs_view(st.found@) == records_of(
            self.service@,
            st.seen@,
        )
        &&& (st.stage == ListStage::AwaitDescribe || st.stage == ListStage::AwaitPayload) ==> st.index
            < st.keys@.len()
        &&& st.stage == ListStage::AwaitPayload ==> matches_service(self.service@, st.text@)
            && after_fields(st.text@, 4) == Some(st.label@)
        &&& (st.stage == ListStage::Start || st.stage == ListStage::AwaitKeyring
            || st.stage is AwaitList) ==> st.index == 0
    }

    /// The service this enumeration looks for.
    pub closed spec fn service(&self) -> Seq<char> {
        self.service@
    }

    pub closed spec fn stage(&self) -> ListStage {
        self.state.stage
    }

    /// The keyring's key ids, once listed.
    pub closed spec fn keys(&self) -> Seq<i32> {
        self.state.keys@
    }

    /// Each key described so far, in order: its describe text and, if it
    /// matched, its payload.
    pub closed spec fn seen(&self) -> Seq<(Seq<char>, Seq<u8>)> {
        self.state.seen@
    }

    /// The describe text of the matching key being read.
    pub closed spec fn pending_text(&self) -> Seq<char> {
        self.state.text@
    }

    /// Whether `reply` is what this stage waits for.
    pub open spec fn answers(&self, reply: Option<KeyctlReply>) -> bool {
        match self.stage() {
            ListStage::Start => reply is None,
            ListStage::AwaitKeyring => reply matches Some(KeyctlReply::Serial(_))
                || reply matches Some(KeyctlReply::Failed(_)),
            ListStage::AwaitList(_) | ListStage::AwaitDescribe | ListStage::AwaitPayload => reply
                matches Some(KeyctlReply::Filled { .. }) || reply matches Some(
                KeyctlReply::Failed(_),
            ),
            ListStage::Over => false,
        }
    }

    /// Advances by one reply (none to begin with).
    pub fn step(&mut self, reply: Option<KeyctlReply>) -> (r: Step<Vec<(String, String)>>)
        ensures
            list_step(*old(self), *final(self), reply, r),
    {
        proof {
            use_type_invariant(&*self);
        }
        let mut st = ListState {
            stage: ListStage::Over,
            keys: Vec::new(),
            index: 0,
            text: String::new(),
            label: String::new(),
            found: Vec::new(),
            seen: Ghost(Seq::empty()),
        };
        std::mem::swap(&mut st, &mut self.state);
        let ghost service = self.service@;
        let ghost before = st.seen@;
        let stage = st.stage;
        let r = match (stage, reply) {
            (ListStage::Start, None) => {
                st.stage = ListStage::AwaitKeyring;
                user_keyring()
            },
            (ListStage::AwaitKeyring, Some(KeyctlReply::Serial(ring))) => {
                st.stage = ListStage::AwaitList(ring);
                Step::Call(Keyring::from_id(ring).keys(0))
            },
            (ListStage::AwaitList(ring), Some(KeyctlReply::Filled { size, buffer })) => {
                match settle(size, buffer) {
                    Fill::Grow(capacity) => Step::Call(Keyring::from_id(ring).keys(capacity)),
                    Fill::Complete(bytes) => {
                        assert(st.seen@ =~= Seq::<(Seq<char>, Seq<u8>)>::empty());
                        st.keys = key_ids(&bytes);
                        next_key(&mut st)
                    },
                }
            },
            (ListStage::AwaitDescribe, Some(KeyctlReply::Filled { size, buffer })) => {
                let key = st.keys[st.index];
                match settle(size, buffer) {
                    Fill::Grow(capacity) => Step::Call(Key(key).describe(capacity)),
                    Fill::Complete(bytes) => {
                        let text_bytes = strip_terminator(bytes);
                        match utf8_text(text_bytes.as_slice()) {
                            None => {
                                st.stage = ListStage::Over;
                                Step::Finished(Err(encoding_failure()))
                            },
                            Some(text) => {
                                let mut matched = false;
                                match parse_description(text.as_str()) {
                                    Some((kind, label)) => {
                                        if kind == "user".to_owned() && contains_text(
                                            label.as_str(),
                                            self.service.as_str(),
                                        ) {
                                            matched = true;
                                            st.label = label;
                                        }
                                    },
                                    None => {},
                                }
                                if matched {
                                    st.text = text;
                                    st.stage = ListStage::AwaitPayload;
                                    Step::Call(Key(key).read())
                                } else {
                                    proof {
                                        lemma_records_push(service, st.seen@, (text@, seq![]));
                                    }
                                    st.seen = Ghost(st.seen@.push((text@, seq![])));
                                    st.index = st.index + 1;
                                    next_key(&mut st)
                                }
                            },
                        }
                    },
                }
            },
            (ListStage::AwaitPayload, Some(KeyctlReply::Filled { size, buffer })) => {
                let key = st.keys[st.index];
                match settle(size, buffer) {
                    Fill::Grow(capacity) => Step::Call(Key(key).read_bytes(capacity)),
                    Fill::Complete(bytes) => {
                        let ghost payload = bytes@;
                        match utf8_text(bytes.as_slice()) {
                            None => {
                                st.stage = ListStage::Over;
                                Step::Finished(Err(encoding_failure()))
                            },
                            Some(secret) => {
                                let id = identifier_of(st.label.as_str());
                                proof {
                                    lemma_records_push(service, st.seen@, (st.text@, payload));
                                }
                                let ghost old_found = st.found@;
                                st.found.push((id, secret));
                                assert(pairs_view(st.found@) =~= pairs_view(old_found).push(
                                    record_of(st.text@, payload),
                                ));
                                st.seen = Ghost(st.seen@.push((st.text@, payload)));
                                st.index = st.index + 1;
                                next_key(&mut st)
                            },
                        }
                    },
                }
            },
            (ListStage::AwaitKeyring, Some(KeyctlReply::Failed(errno)))
            | (ListStage::AwaitList(_), Some(KeyctlReply::Failed(errno)))
            | (ListStage::AwaitDescribe, Some(KeyctlReply::Failed(errno)))
            | (ListStage::AwaitPayload, Some(KeyctlReply::Failed(errno))) => {
                st.stage = ListStage::Over;
                Step::Finished(Err(keyctl_failure(errno)))
            },
            _ => {
                st.stage = ListStage::Over;
                Step::Finished(Err(protocol_failure()))
            },
        };
        assert(st.seen@.take(before.len() as int) =~= before);
        self.state = st;
        r
    }
}

/// How an enumeration goes on once a key is done with: it describes the
/// next listed key, or, with every key described, ends with the records of
/// the matching ones.
pub open spec fn moves_on(new: FindCredentials, r: Step<Vec<(String, String)>>) -> bool {
    if new.seen().len() < new.keys().len() {
        new.stage() == ListStage::AwaitDescribe && asks_describe(
            r,
            new.keys()[new.seen().len() as int],
            0,
        )
    } else {
        r matches Step::Finished(Ok(v)) && pairs_view(v@) == records_of(new.service(), new.seen())
    }
}

/// What one step of an enumeration does.
pub open spec fn list_step(
    old: FindCredentials,
    new: FindCredentials,
    reply: Option<KeyctlReply>,
    r: Step<Vec<(String, String)>>,
) -> bool {
    let service = old.service();
    &&& new.service() == service
    &&& r is Finished <==> new.stage() == ListStage::Over
    &&& !old.answers(reply) ==> fails_protocol(r)
    // A successful end has described every listed key, and gives the
    // records of the matching ones.
    &&& r matches Step::Finished(Ok(v)) ==> pairs_view(v@) == records_of(service, new.seen())
        && new.seen().len() == new.keys().len()
    // The log only grows, by at most one key a step.
    &&& old.seen().len() <= new.seen().len() <= old.seen().len() + 1
    &&& new.seen().take(old.seen().len() as int) == old.seen()
    // Keys are described in the listing's order; a matching key's payload
    // is read next.
    &&& new.stage() == ListStage::AwaitDescribe ==> (r matches Step::Call(
        KeyctlRequest::Describe { key, .. },
    ) && key == new.keys()[new.seen().len() as int])
    &&& new.stage() == ListStage::AwaitPayload ==> (r matches Step::Call(
        KeyctlRequest::Read { key, .. },
    ) && key == new.keys()[new.seen().len() as int] && matches_service(
        service,
        new.pending_text(),
    ))
    // The log changes only when a described key is done with.
    &&& new.seen() != old.seen() ==> (old.stage() == ListStage::AwaitDescribe || old.stage()
        == ListStage::AwaitPayload)
    &&& new.seen() != old.seen() ==> (reply matches Some(KeyctlReply::Filled { size, buffer })
        && size <= buffer@.len())
    // The key ids change only when the listing completes.
    &&& !(old.stage() is AwaitList) ==> new.keys() == old.keys()
    &&& (old.stage() == ListStage::Start && reply is None) ==> asks_user_keyring(r) && new.stage()
        == ListStage::AwaitKeyring
    &&& old.stage() == ListStage::AwaitKeyring ==> (reply matches Some(KeyctlReply::Serial(ring))
        ==> asks_read(r, ring, 0) && new.stage() == ListStage::AwaitList(ring))
    // The listing's bytes give the key ids, four bytes each.
    &&& old.stage() matches ListStage::AwaitList(ring) ==> (reply matches Some(
        KeyctlReply::Filled { size, buffer },
    ) ==> if size <= buffer@.len() {
        &&& new.keys().len() == size / 4
        &&& forall|k: int|
            0 <= k < new.keys().len() ==> native_word(buffer@, 4 * k, #[trigger] new.keys()[k])
        &&& new.seen() == Seq::<(Seq<char>, Seq<u8>)>::empty()
        &&& moves_on(new, r)
    } else {
        asks_read(r, ring, size) && new.stage() == old.stage()
    })
    // A describe text is the reply's bytes, without the NUL, as UTF-8.
    &&& old.stage() == ListStage::AwaitDescribe ==> (reply matches Some(
        KeyctlReply::Filled { size, buffer },
    ) ==> if size <= buffer@.len() {
        let bytes = without_terminator(buffer@.take(size as int));
        let text = decode_utf8(bytes);
        if !valid_utf8(bytes) {
            (r matches Step::Finished(Err(e)) && is_encoding_failure(e)) && new.seen() == old.seen()
        } else if matches_service(service, text) {
            new.stage() == ListStage::AwaitPayload && new.pending_text() == text && new.seen()
                == old.seen()
        } else {
            new.seen() == old.seen().push((text, seq![])) && moves_on(new, r)
        }
    } else {
        asks_describe(r, old.keys()[old.seen().len() as int], size) && new.stage() == old.stage()
    })
    // A matching key's payload is logged with its describe text.
    &&& old.stage() == ListStage::AwaitPayload ==> (reply matches Some(
        KeyctlReply::Filled { size, buffer },
    ) ==> if size <= buffer@.len() {
        let payload = buffer@.take(size as int);
        if !valid_utf8(payload) {
            (r matches Step::Finished(Err(e)) && is_encoding_failure(e)) && new.seen() == old.seen()
        } else {
            new.seen() == old.seen().push((old.pending_text(), payload)) && moves_on(new, r)
        }
    } else {
        asks_read(r, old.keys()[old.seen().len() as int], size) && new.stage() == old.stage()
    })
    &&& (old.stage() != ListStage::Start && old.stage() != ListStage::Over) ==> (reply matches Some(
        KeyctlReply::Failed(errno),
    ) ==> fails_with_errno(r, errno))
}

/// How a find operation looks: exactly, for a `service/account` input, or
/// through the listing, for a bare service.
pub enum FindMode {
    Exact(GetPassword),
    Listing(FindCredentials),
}

/// Finds one secret by service. An input that holds a `/` is split on its
/// first `/` and names one entry; a bare service gives the secret of the
/// first entry that the listing for it returns.
pub struct FindPassword {
    pub service: String,
    pub mode: FindMode,
}

/// The first secret of a listing's result.
pub open spec fn first_secret(s: Step<Vec<(String, String)>>) -> Step<Option<String>> {
    match s {
        Step::Call(q) => Step::Call(q),
        Step::Finished(Ok(v)) => Step::Finished(
            Ok(
                if v.len() > 0 {
                    Some(v[0].1)
                } else {
                    None
                },
            ),
        ),
        Step::Finished(Err(e)) => Step::Finished(Err(e)),
    }
}

/// The find operation for a service, not yet started.
pub fn find_password(service: String) -> (r: FindPassword)
    ensures
        r.service@ == service@,
        slash_free(service@) ==> (r.mode matches FindMode::Listing(l) && l.service() == service@
            && l.stage() == ListStage::Start && l.seen() == Seq::<(Seq<char>, Seq<u8>)>::empty()),
        !slash_free(service@) ==> (r.mode matches FindMode::Exact(g) && g.service@ == service_part(
            service@,
        ) && Some(g.account@) == account_part(service@) && g.stage == GetStage::Start),
{
    let (head, account) = decompose(service.as_str());
    let mode = match account {
        Some(a) => FindMode::Exact(get_password(head, a)),
        None => FindMode::Listing(find_credentials(service.clone())),
    };
    FindPassword { service, mode }
}

impl FindPassword {
    /// Advances by one reply (none to begin with).
    pub fn step(&mut self, reply: Option<KeyctlReply>) -> (r: Step<Option<String>>)
        ensures
            final(self).service == old(self).service,
            old(self).mode matches FindMode::Exact(g1) ==> (final(self).mode matches FindMode::Exact(
                g2,
            ) && get_step(g1, g2, reply, r)),
            old(self).mode matches FindMode::Listing(l1) ==> (final(self).mode matches FindMode::Listing(
                l2,
            ) && exists|s: Step<Vec<(String, String)>>|
                list_step(l1, l2, reply, s) && r == first_secret(s)),
    {
        match &mut self.mode {
            FindMode::Exact(g) => g.step(reply),
            FindMode::Listing(l) => {
                let s = l.step(reply);
                let ghost inner = s;
                let r = match s {
                    Step::Call(q) => Step::Call(q),
                    Step::Finished(Ok(v)) => {
                        let mut v = v;
                        if v.len() > 0 {
                            let (_, secret) = v.swap_remove(0);
                            Step::Finished(Ok(Some(secret)))
                        } else {
                            Step::Finished(Ok(None))
                        }
                    },
                    Step::Finished(Err(e)) => Step::Finished(Err(e)),
                };
                assert(r == first_secret(inner));
                r
            },
        }
    }
}

/// A `;`-separated field followed by the rest of a describe text.
pub open spec fn field(head: Seq<char>, rest: Seq<char>) -> Seq<char> {
    head + seq![';'] + rest
}

/// The describe text of a user key: `user;uid;gid;perm;description`.
pub open spec fn user_key_text(
    uid: Seq<char>,
    gid: Seq<char>,
    perm: Seq<char>,
    description: Seq<char>,
) -> Seq<char> {
    field("user"@, field(uid, field(gid, field(perm, description))))
}

proof fn lemma_after_field(head: Seq<char>, rest: Seq<char>, n: nat)
    requires
        char_free(head, ';'),
        n > 0,
    ensures
        after_fields(field(head, rest), n) == after_fields(rest, (n - 1) as nat),
        first_field(field(head, rest)) == head,
{
    let s = field(head, rest);
    assert(s.take(head.len() as int) =~= head);
    assert(is_first(s, ';', head.len() as int));
    lemma_first_unique(s, ';', head.len() as int);
    assert(s.skip(head.len() + 1 as int) =~= rest);
}

proof fn lemma_user_key_text(uid: Seq<char>, gid: Seq<char>, perm: Seq<char>, d: Seq<char>)
    requires
        char_free(uid, ';'),
        char_free(gid, ';'),
        char_free(perm, ';'),
    ensures
        first_field(user_key_text(uid, gid, perm, d)) == "user"@,
        after_fields(user_key_text(uid, gid, perm, d), 4) == Some(d),
{
    reveal_strlit("user");
    assert(char_free("user"@, ';'));
    lemma_after_field("user"@, field(uid, field(gid, field(perm, d))), 4);
    lemma_after_field(uid, field(gid, field(perm, d)), 3);
    lemma_after_field(gid, field(perm, d), 2);
    lemma_after_field(perm, d, 1);
}

/// Round trip: a get of the address that a set wrote looks up the key the
/// set described, and when the kernel answers with that key and the bytes
/// the set stored, the whole get run gives back the secret that was set.
pub proof fn law_round_trip(
    set: SetPassword,
    g0: GetPassword,
    g1: GetPassword,
    g2: GetPassword,
    g3: GetPassword,
    g4: GetPassword,
    ring: i32,
    key: i32,
    size: usize,
    buffer: Vec<u8>,
    r0: Step<Option<String>>,
    r1: Step<Option<String>>,
    r2: Step<Option<String>>,
    r3: Step<Option<String>>,
)
    requires
        g0.service@ == set.service@,
        g0.account@ == set.account@,
        g0.stage == GetStage::Start,
        valid_description(set.description()),
        size <= buffer@.len(),
        buffer@.take(size as int) == encode_utf8(set.password@),
        get_step(g0, g1, None, r0),
        get_step(g1, g2, Some(KeyctlReply::Serial(ring)), r1),
        get_step(g2, g3, Some(KeyctlReply::Serial(key)), r2),
        get_step(g3, g4, Some(KeyctlReply::Filled { size, buffer }), r3),
    ensures
        g0.description() == set.description(),
        asks_user_keyring(r0),
        asks_search(r1, ring, set.description()),
        asks_read(r2, key, 0),
        r3 matches Step::Finished(Ok(Some(p))) && p@ == set.password@,
{
    encode_utf8_valid_utf8(set.password@);
    encode_utf8_decode_utf8(set.password@);
}

/// Absence is no failure: a get run and a delete run on an address for
/// which the kernel finds no key end with `None` and `false`.
pub proof fn law_absent_address(
    g0: GetPassword,
    g1: GetPassword,
    g2: GetPassword,
    g3: GetPassword,
    d0: DeletePassword,
    d1: DeletePassword,
    d2: DeletePassword,
    d3: DeletePassword,
    ring: i32,
    gr: (Step<Option<String>>, Step<Option<String>>, Step<Option<String>>),
    dr: (Step<bool>, Step<bool>, Step<bool>),
)
    requires
        g0.stage == GetStage::Start,
        d0.stage == DeleteStage::Start,
        valid_description(g0.description()),
        valid_description(d0.description()),
        get_step(g0, g1, None, gr.0),
        get_step(g1, g2, Some(KeyctlReply::Serial(ring)), gr.1),
        get_step(g2, g3, Some(KeyctlReply::Failed(ENOKEY)), gr.2),
        delete_step(d0, d1, None, dr.0),
        delete_step(d1, d2, Some(KeyctlReply::Serial(ring)), dr.1),
        delete_step(d2, d3, Some(KeyctlReply::Failed(ENOKEY)), dr.2),
    ensures
        asks_search(gr.1, ring, g0.description()),
        gr.2 matches Step::Finished(Ok(None)),
        asks_search(dr.1, ring, d0.description()),
        dr.2 matches Step::Finished(Ok(false)),
{
}

/// Enumeration completeness: a keyring that holds one user key for each of
/// `n` accounts under a service, each described by its composite key and
/// holding its secret's UTF-8 bytes, lists as exactly those `n`
/// (account, secret) pairs.
pub proof fn law_enumeration_complete(
    service: Seq<char>,
    accounts: Seq<Seq<char>>,
    secrets: Seq<Seq<char>>,
    uid: Seq<char>,
    gid: Seq<char>,
    perm: Seq<char>,
    entries: Seq<(Seq<char>, Seq<u8>)>,
)
    requires
        slash_free(service),
        char_free(uid, ';'),
        char_free(gid, ';'),
        char_free(perm, ';'),
        accounts.len() == secrets.len(),
        entries.len() == accounts.len(),
        forall|i: int|
            0 <= i < entries.len() ==> #[trigger] entries[i] == (
                user_key_text(uid, gid, perm, composite(service, accounts[i])),
                encode_utf8(secrets[i]),
            ),
    ensures
        records_of(service, entries) == Seq::new(
            accounts.len(),
            |i: int| (accounts[i], secrets[i]),
        ),
    decreases entries.len(),
{
    let n = entries.len();
    if n == 0 {
        assert(records_of(service, entries) =~= Seq::new(0, |i: int| (accounts[i], secrets[i])));
    } else {
        let last = (n - 1) as int;
        law_enumeration_complete(
            service,
            accounts.drop_last(),
            secrets.drop_last(),
            uid,
            gid,
            perm,
            entries.drop_last(),
        );
        let d = composite(service, accounts[last]);
        lemma_user_key_text(uid, gid, perm, d);
        lemma_decompose_composite(service, accounts[last]);
        encode_utf8_decode_utf8(secrets[last]);
        let zero: int = 0;
        assert(d.subrange(zero, zero + service.len()) =~= service);
        assert(is_infix(service, d));
        assert(records_of(service, entries) =~= Seq::new(
            accounts.len(),
            |i: int| (accounts[i], secrets[i]),
        ));
    }
}

/// A credential as callers receive it from a listing.
#[derive(Debug, Clone)]
pub struct Credential {
    pub username: String,
    pub password: String,
}

/// The credentials for a listing's (identifier, secret) pairs, in order.
pub fn credentials_of(pairs: &Vec<(String, String)>) -> (r: Vec<Credential>)
    ensures
        r@.len() == pairs@.len(),
        forall|i: int|
            0 <= i < r@.len() ==> #[trigger] r@[i].username == pairs@[i].0 && r@[i].password
                == pairs@[i].1,
{
    let mut out: Vec<Credential> = Vec::new();
    let mut i: usize = 0;
    while i < pairs.len()
        invariant
            i <= pairs@.len(),
            out@.len() == i,
            forall|k: int|
                0 <= k < i ==> #[trigger] out@[k].username == pairs@[k].0 && out@[k].password
                    == pairs@[k].1,
        decreases pairs@.len() - i,
    {
        out.push(Credential { username: pairs[i].0.clone(), password: pairs[i].1.clone() });
        i = i + 1;
    }
    out
}

} // verus!
