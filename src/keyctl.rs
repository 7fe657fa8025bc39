//! The Linux kernel keyring's vocabulary: command and keyring codes, the
//! requests a keyring operation makes and the replies it is handed, and the
//! decoding of what the kernel returns.
//!
//! Nothing here makes a system call. A driver performs each request and
//! hands back the reply.

use vstd::prelude::*;
use vstd::string::*;
use vstd::utf8::{decode_utf8, encode_utf8, valid_utf8};
use crate::address::{char_free, first_index, find_char, lemma_first_unique};
use crate::error::{Error, KeytarError, error_text};

verus! {

/// The errno by which the kernel reports that no key matched.
pub const ENOKEY: i32 = 126;

/// The longest key description the kernel takes, in bytes.
pub const MAX_DESCRIPTION_BYTES: usize = 4095;

/// The special keyrings, by the negative ids the kernel gives them.
#[derive(Debug, Clone, Copy, PartialEq, Eq, Structural)]
pub enum SpecialId {
    Requestor,
    RequestKeyAuthKey,
    Group,
    UserSession,
    User,
    Session,
    Process,
    Thread,
}

impl SpecialId {
    pub open spec fn spec_code(&self) -> i32 {
        match self {
            SpecialId::Requestor => -8i32,
            SpecialId::RequestKeyAuthKey => -7i32,
            SpecialId::Group => -6i32,
            SpecialId::UserSession => -5i32,
            SpecialId::User => -4i32,
            SpecialId::Session => -3i32,
            SpecialId::Process => -2i32,
            SpecialId::Thread => -1i32,
        }
    }

    /// The kernel's id for this keyring.
    #[verifier::when_used_as_spec(spec_code)]
    pub fn code(&self) -> (r: i32)
        ensures
            r == self.spec_code(),
    {
        match self {
            SpecialId::Requestor => -8,
            SpecialId::RequestKeyAuthKey => -7,
            SpecialId::Group => -6,
            SpecialId::UserSession => -5,
            SpecialId::User => -4,
            SpecialId::Session => -3,
            SpecialId::Process => -2,
            SpecialId::Thread => -1,
        }
    }
}

/// The keyrings that a key request may default to.
#[derive(Debug, Clone, Copy, PartialEq, Eq, Structural)]
pub enum RequestKeyring {
    Thread,
    Process,
    Session,
    User,
    UserSession,
    Group,
    Requestor,
}

/// The kinds of key.
#[derive(Debug, Clone, Copy, PartialEq, Eq, Structural)]
pub enum KeyType {
    Keyring,
    User,
    Logon,
    BigKey,
}

impl KeyType {
    pub open spec fn spec_name(&self) -> Seq<char> {
        match self {
            KeyType::Keyring => "keyring\0"@,
            KeyType::User => "user\0"@,
            KeyType::Logon => "logon\0"@,
            KeyType::BigKey => "big_key\0"@,
        }
    }

    /// The kernel's name for this kind, NUL-terminated.
    pub fn as_str(&self) -> (r: &'static str)
        ensures
            r@ == self.spec_name(),
    {
        match self {
            KeyType::Keyring => "keyring\0",
            KeyType::User => "user\0",
            KeyType::Logon => "logon\0",
            KeyType::BigKey => "big_key\0",
        }
    }
}

/// The keyctl commands, in the kernel's numbering.
#[derive(Debug, Clone, Copy, PartialEq, Eq, Structural)]
pub enum Commands {
    GetKeyringId,
    JoinSessionKeyring,
    Update,
    Revoke,
    Chown,
    SetPerm,
    Describe,
    Clear,
    Link,
    Unlink,
    Search,
    Read,
    Instantiate,
    Negate,
    SetRequestKeyring,
    SetTimeout,
    AssumeAuthority,
    GetSecurity,
    SessionToParent,
    Reject,
    InstantiateIov,
    Invalidate,
    GetPersistent,
    DhCompute,
    PkeyQuery,
    PkeyEncrypt,
    PkeyDecrypt,
    PkeySign,
    PkeyVerify,
    RestrictKeyring,
    Move,
    Capabilities,
    WatchKey,
}

impl Commands {
    pub open spec fn spec_code(&self) -> i32 {
        match self {
            Commands::GetKeyringId => 0,
            Commands::JoinSessionKeyring => 1,
            Commands::Update => 2,
            Commands::Revoke => 3,
            Commands::Chown => 4,
            Commands::SetPerm => 5,
            Commands::Describe => 6,
            Commands::Clear => 7,
            Commands::Link => 8,
            Commands::Unlink => 9,
            Commands::Search => 10,
            Commands::Read => 11,
            Commands::Instantiate => 12,
            Commands::Negate => 13,
            Commands::SetRequestKeyring => 14,
            Commands::SetTimeout => 15,
            Commands::AssumeAuthority => 16,
            Commands::GetSecurity => 17,
            Commands::SessionToParent => 18,
            Commands::Reject => 19,
            Commands::InstantiateIov => 20,
            Commands::Invalidate => 21,
            Commands::GetPersistent => 22,
            Commands::DhCompute => 23,
            Commands::PkeyQuery => 24,
            Commands::PkeyEncrypt => 25,
            Commands::PkeyDecrypt => 26,
            Commands::PkeySign => 27,
            Commands::PkeyVerify => 28,
            Commands::RestrictKeyring => 29,
            Commands::Move => 30,
            Commands::Capabilities => 31,
            Commands::WatchKey => 32,
        }
    }

    /// The kernel's number for this command.
    #[verifier::when_used_as_spec(spec_code)]
    pub fn code(&self) -> (r: i32)
        ensures
            r == self.spec_code(),
    {
        match self {
            Commands::GetKeyringId => 0,
            Commands::JoinSessionKeyring => 1,
            Commands::Update => 2,
            Commands::Revoke => 3,
            Commands::Chown => 4,
            Commands::SetPerm => 5,
            Commands::Describe => 6,
            Commands::Clear => 7,
            Commands::Link => 8,
            Commands::Unlink => 9,
            Commands::Search => 10,
            Commands::Read => 11,
            Commands::Instantiate => 12,
            Commands::Negate => 13,
            Commands::SetRequestKeyring => 14,
            Commands::SetTimeout => 15,
            Commands::AssumeAuthority => 16,
            Commands::GetSecurity => 17,
            Commands::SessionToParent => 18,
            Commands::Reject => 19,
            Commands::InstantiateIov => 20,
            Commands::Invalidate => 21,
            Commands::GetPersistent => 22,
            Commands::DhCompute => 23,
            Commands::PkeyQuery => 24,
            Commands::PkeyEncrypt => 25,
            Commands::PkeyDecrypt => 26,
            Commands::PkeySign => 27,
            Commands::PkeyVerify => 28,
            Commands::RestrictKeyring => 29,
            Commands::Move => 30,
            Commands::Capabilities => 31,
            Commands::WatchKey => 32,
        }
    }
}

/// One native call that a keyring operation asks its driver to make.
#[derive(Debug)]
pub enum KeyctlRequest {
    /// Resolve a special keyring to its id, creating it if `create`.
    KeyringId { special: SpecialId, create: bool },
    /// Add a key, or update the key of the same kind and description.
    AddKey { key_type: KeyType, description: String, payload: Vec<u8>, keyring: i32 },
    /// Find a key of a kind by its exact description.
    Search { keyring: i32, key_type: KeyType, description: String },
    /// Read a key's payload (a keyring's: its key ids) into a buffer of
    /// `capacity` bytes.
    Read { key: i32, capacity: usize },
    /// Read a key's description text into a buffer of `capacity` bytes.
    Describe { key: i32, capacity: usize },
    /// Invalidate a key.
    Invalidate { key: i32 },
}

/// What the driver hands back for a request.
#[derive(Debug)]
pub enum KeyctlReply {
    /// A key or keyring id.
    Serial(i32),
    /// For `Read` and `Describe`: the full size the kernel reported, and the
    /// buffer as it filled it (the first `min(size, capacity)` bytes count).
    Filled { size: usize, buffer: Vec<u8> },
    /// The call succeeded with nothing to return.
    Done,
    /// The call failed with this errno.
    Failed(i32),
}

/// A keyring, by its id.
#[derive(Debug, Clone, Copy, PartialEq, Eq, Structural)]
pub struct Keyring {
    pub id: i32,
}

/// A key, by its id.
#[derive(Debug, Clone, Copy, PartialEq, Eq, Structural)]
pub struct Key(pub i32);

impl Keyring {
    /// The keyring with this id.
    pub fn from_id(id: i32) -> (r: Keyring)
        ensures
            r.id == id,
    {
        Keyring { id }
    }

    /// The request that resolves a special keyring to its id.
    pub fn from_special_id(id: SpecialId, should_create: bool) -> (r: KeyctlRequest)
        ensures
            r == (KeyctlRequest::KeyringId { special: id, create: should_create }),
    {
        KeyctlRequest::KeyringId { special: id, create: should_create }
    }

    /// The request that reads this keyring's key ids into `capacity` bytes.
    pub fn keys(&self, capacity: usize) -> (r: KeyctlRequest)
        ensures
            r == (KeyctlRequest::Read { key: self.id, capacity }),
    {
        KeyctlRequest::Read { key: self.id, capacity }
    }

    /// The request that adds, or updates, a user key in this keyring.
    pub fn add_key(&self, description: String, secret: &str) -> (r: KeyctlRequest)
        ensures
            r matches KeyctlRequest::AddKey { key_type, description: d, payload, keyring }
                && key_type == KeyType::User && d == description && payload@ == encode_utf8(
                secret@,
            ) && keyring == self.id,
    {
        KeyctlRequest::AddKey {
            key_type: KeyType::User,
            description,
            payload: secret.as_bytes_vec(),
            keyring: self.id,
        }
    }

    /// The request that finds the user key with exactly this description.
    pub fn search(&self, description: String) -> (r: KeyctlRequest)
        ensures
            r matches KeyctlRequest::Search { keyring, key_type, description: d } && keyring
                == self.id && key_type == KeyType::User && d == description,
    {
        KeyctlRequest::Search { keyring: self.id, key_type: KeyType::User, description }
    }
}

impl Key {
    /// The request that reads this key's description text into `capacity`
    /// bytes.
    pub fn describe(&self, capacity: usize) -> (r: KeyctlRequest)
        ensures
            r == (KeyctlRequest::Describe { key: self.0, capacity }),
    {
        KeyctlRequest::Describe { key: self.0, capacity }
    }

    /// The request that reads this key's payload into `capacity` bytes.
    pub fn read_bytes(&self, capacity: usize) -> (r: KeyctlRequest)
        ensures
            r == (KeyctlRequest::Read { key: self.0, capacity }),
    {
        KeyctlRequest::Read { key: self.0, capacity }
    }

    /// The request that starts reading this key's whole payload: it asks
    /// for the size alone.
    pub fn read(&self) -> (r: KeyctlRequest)
        ensures
            r == (KeyctlRequest::Read { key: self.0, capacity: 0 }),
    {
        self.read_bytes(0)
    }

    /// The request that invalidates this key.
    pub fn invalidate(&self) -> (r: KeyctlRequest)
        ensures
            r == (KeyctlRequest::Invalidate { key: self.0 }),
    {
        KeyctlRequest::Invalidate { key: self.0 }
    }
}

/// The failure reported for a keyctl errno.
pub open spec fn is_keyctl_failure(e: KeytarError, errno: i32) -> bool {
    e matches KeytarError::Library { name, details } && name@ == "keyctl"@ && details@
        == error_text(Some(errno), None)
}

pub fn keyctl_failure(errno: i32) -> (r: KeytarError)
    ensures
        is_keyctl_failure(r, errno),
{
    KeytarError::Library {
        name: "keyctl".to_owned(),
        details: Error::from_code(errno).to_string(),
    }
}

/// The failure reported when a reply does not fit the request made.
pub open spec fn is_protocol_failure(e: KeytarError) -> bool {
    e matches KeytarError::Library { name, details } && name@ == "keyctl"@ && details@
        == "reply does not answer the request"@
}

pub fn protocol_failure() -> (r: KeytarError)
    ensures
        is_protocol_failure(r),
{
    KeytarError::Library {
        name: "keyctl".to_owned(),
        details: "reply does not answer the request".to_owned(),
    }
}

/// The failure reported for payload bytes that are not UTF-8.
pub open spec fn is_encoding_failure(e: KeytarError) -> bool {
    e matches KeytarError::Utf8(details) && details@ == "stored bytes are not valid UTF-8"@
}

pub fn encoding_failure() -> (r: KeytarError)
    ensures
        is_encoding_failure(r),
{
    KeytarError::Utf8("stored bytes are not valid UTF-8".to_owned())
}

/// Whether the kernel takes `d` as a key description: no NUL, and at most
/// `MAX_DESCRIPTION_BYTES` bytes of UTF-8.
pub open spec fn valid_description(d: Seq<char>) -> bool {
    char_free(d, '\0') && encode_utf8(d).len() <= MAX_DESCRIPTION_BYTES
}

pub fn is_valid_description(d: &str) -> (r: bool)
    ensures
        r == valid_description(d@),
{
    let no_nul = find_char(d, '\0').is_none();
    let bytes = d.as_bytes();
    no_nul && bytes.len() <= MAX_DESCRIPTION_BYTES
}

/// The failure for a description the kernel would refuse.
pub open spec fn is_description_refusal(e: KeytarError) -> bool {
    e matches KeytarError::InvalidArg { argument, details } && argument@ == "description"@
        && details@ == "holds a NUL or is longer than the kernel allows"@
}

pub fn description_refusal() -> (r: KeytarError)
    ensures
        is_description_refusal(r),
{
    KeytarError::InvalidArg {
        argument: "description".to_owned(),
        details: "holds a NUL or is longer than the kernel allows".to_owned(),
    }
}

/// The outcome of one sized read.
#[derive(Debug)]
pub enum Fill {
    /// The buffer held it all: these are the bytes.
    Complete(Vec<u8>),
    /// The buffer was too small: ask again with this capacity.
    Grow(usize),
}

/// Settles a sized read: the kernel reported `size` bytes and filled
/// `buffer`. The read is stable once the buffer held the whole size.
pub fn settle(size: usize, buffer: Vec<u8>) -> (r: Fill)
    ensures
        size <= buffer@.len() ==> (r matches Fill::Complete(b) && b@ == buffer@.take(size as int)),
        size > buffer@.len() ==> r == Fill::Grow(size),
{
    if size <= buffer.len() {
        let mut b = buffer;
        b.truncate(size);
        Fill::Complete(b)
    } else {
        Fill::Grow(size)
    }
}

/// The value of four bytes, least significant first.
pub open spec fn le_word(b: Seq<u8>, i: int) -> int {
    b[i] as int + 256 * b[i + 1] + 65536 * b[i + 2] + 16777216 * b[i + 3]
}

/// The value of four bytes, most significant first.
pub open spec fn be_word(b: Seq<u8>, i: int) -> int {
    b[i + 3] as int + 256 * b[i + 2] + 65536 * b[i + 1] + 16777216 * b[i]
}

/// A 32-bit word read as two's complement.
pub open spec fn signed_word(w: int) -> int {
    if w >= 0x8000_0000 {
        w - 0x1_0000_0000
    } else {
        w
    }
}

/// Whether `id` is the four bytes at `i` in the machine's byte order.
pub open spec fn native_word(b: Seq<u8>, i: int, id: i32) -> bool {
    id as int == signed_word(le_word(b, i)) || id as int == signed_word(be_word(b, i))
}

/// Relies on `i32::from_ne_bytes`: the four bytes in the machine's byte
/// order, which is little- or big-endian.
#[verifier::external_body]
fn native_i32(b0: u8, b1: u8, b2: u8, b3: u8) -> (r: i32)
    ensures
        native_word(seq![b0, b1, b2, b3], 0, r),
{
    i32::from_ne_bytes([b0, b1, b2, b3])
}

/// The key ids in a keyring's contents: one per four bytes, in order; a
/// trailing part word is ignored.
pub fn key_ids(list: &Vec<u8>) -> (r: Vec<i32>)
    ensures
        r@.len() == list@.len() / 4,
        r@.len() <= usize::MAX,
        forall|k: int| 0 <= k < r@.len() ==> native_word(list@, 4 * k, #[trigger] r@[k]),
{
    let n = list.len();
    let mut ids: Vec<i32> = Vec::new();
    let mut i: usize = 0;
    while 4 <= n - i
        invariant
            n == list@.len(),
            i <= n,
            i == 4 * ids@.len(),
            forall|k: int| 0 <= k < ids@.len() ==> native_word(list@, 4 * k, #[trigger] ids@[k]),
        decreases n - i,
    {
        let id = native_i32(list[i], list[i + 1], list[i + 2], list[i + 3]);
        assert(native_word(list@, i as int, id));
        ids.push(id);
        i = i + 4;
    }
    assert(ids@.len() == n / 4) by (nonlinear_arith)
        requires
            i == 4 * ids@.len(),
            i <= n,
            n < i + 4,
    ;
    ids
}

/// What follows the `n`-th `;` of `s`, if `s` holds that many.
pub open spec fn after_fields(s: Seq<char>, n: nat) -> Option<Seq<char>>
    decreases n,
{
    if n == 0 {
        Some(s)
    } else if char_free(s, ';') {
        None
    } else {
        after_fields(s.skip(first_index(s, ';') + 1), (n - 1) as nat)
    }
}

/// The first field of `s`: what stands before its first `;`, or all of it.
pub open spec fn first_field(s: Seq<char>) -> Seq<char> {
    if char_free(s, ';') {
        s
    } else {
        s.take(first_index(s, ';'))
    }
}

/// A described key's text, `type;uid;gid;perm;description`: its kind and
/// its description, when the text has all five fields.
pub fn parse_description(text: &str) -> (r: Option<(String, String)>)
    ensures
        r is None <==> after_fields(text@, 4) is None,
        r matches Some((t, d)) ==> t@ == first_field(text@) && after_fields(text@, 4) == Some(d@),
{
    let kind = match find_char(text, ';') {
        None => {
            return None;
        },
        Some(i) => {
            proof {
                lemma_first_unique(text@, ';', i as int);
            }
            let kind = text.substring_char(0, i).to_owned();
            assert(text@.subrange(0, i as int) =~= text@.take(i as int));
            kind
        },
    };
    let mut rest = text.to_owned();
    let mut k: usize = 0;
    while k < 4
        invariant
            k <= 4,
            after_fields(text@, 4) == after_fields(rest@, (4 - k) as nat),
        decreases 4 - k,
    {
        match find_char(rest.as_str(), ';') {
            None => {
                return None;
            },
            Some(i) => {
                proof {
                    lemma_first_unique(rest@, ';', i as int);
                }
                let n = rest.unicode_len();
                let next = rest.as_str().substring_char(i + 1, n).to_owned();
                assert(next@ =~= rest@.skip(i + 1));
                rest = next;
            },
        }
        k = k + 1;
    }
    Some((kind, rest))
}

/// `b` without one trailing NUL, if it ends in one.
pub open spec fn without_terminator(b: Seq<u8>) -> Seq<u8> {
    if b.len() > 0 && b.last() == 0 {
        b.drop_last()
    } else {
        b
    }
}

pub fn strip_terminator(b: Vec<u8>) -> (r: Vec<u8>)
    ensures
        r@ == without_terminator(b@),
{
    let mut b = b;
    let n = b.len();
    if n > 0 && b[n - 1] == 0 {
        b.pop();
    }
    b
}

/// Relies on `String::from_utf8`: the text, exactly when the bytes are
/// valid UTF-8.
#[verifier::external_body]
pub(crate) fn utf8_text(b: &[u8]) -> (r: Option<String>)
    ensures
        r is Some <==> valid_utf8(b@),
        r matches Some(s) ==> s@ == decode_utf8(b@),
{
    String::from_utf8(b.to_vec()).ok()
}

/// Relies on `str::contains` with a `&str` pattern: whether `needle`
/// occurs in `hay` as a run of characters.
#[verifier::external_body]
pub(crate) fn contains_text(hay: &str, needle: &str) -> (r: bool)
    ensures
        r == is_infix(needle@, hay@),
{
    hay.contains(needle)
}

/// Whether `n` occurs in `h` as a contiguous run.
pub open spec fn is_infix(n: Seq<char>, h: Seq<char>) -> bool {
    exists|i: int| 0 <= i <= h.len() - n.len() && #[trigger] h.subrange(i, i + n.len()) == n
}

} // verus!
