//! Windows Credential Manager: the decisions around its native calls.
//!
//! The store keys a credential by one wide-character target name, the
//! composite `service/account`, and keeps the account again as the
//! credential's user name. Enumeration filters targets by the prefix
//! pattern `service*`.

use vstd::prelude::*;
use vstd::string::*;
use vstd::utf8::{decode_utf8, valid_utf8};
use crate::address::{composite, compose};
use crate::error::{ErrorKind, KeytarError};
use crate::outcome::{Native, payload_text};

verus! {

/// The Win32 error for "element not found".
pub const ERROR_NOT_FOUND: u32 = 1168;

/// The UTF-16 code units of one character.
pub open spec fn utf16_char(c: char) -> Seq<u16> {
    let v = c as u32;
    if v < 0x10000 {
        seq![v as u16]
    } else {
        let w = v - 0x10000;
        seq![(0xD800 + w / 0x400) as u16, (0xDC00 + w % 0x400) as u16]
    }
}

/// The UTF-16 code units of a text.
pub open spec fn utf16_of(s: Seq<char>) -> Seq<u16>
    decreases s.len(),
{
    if s.len() == 0 {
        seq![]
    } else {
        utf16_of(s.drop_last()) + utf16_char(s.last())
    }
}

/// Whether units hold a zero unit.
pub open spec fn has_nul_unit(u: Seq<u16>) -> bool {
    exists|i: int| 0 <= i < u.len() && u[i] == 0
}

/// Relies on `str::encode_utf16`: the text's UTF-16 code units.
#[verifier::external_body]
fn utf16_units(s: &str) -> (r: Vec<u16>)
    ensures
        r@ == utf16_of(s@),
{
    s.encode_utf16().collect()
}

/// Relies on `String::from_utf16`: the text whose UTF-16 the units are, if
/// they are valid UTF-16.
#[verifier::external_body]
fn utf16_text(u: &[u16]) -> (r: Option<String>)
    ensures
        r matches Some(t) ==> utf16_of(t@) == u@,
        r is None ==> forall|t: Seq<char>| utf16_of(t) != u@,
{
    String::from_utf16(u).ok()
}

/// A text as NUL-terminated UTF-16, or `None` if it holds a NUL unit
/// already: the native call would read it cut short.
pub fn encode_utf16(s: &str) -> (r: Option<Vec<u16>>)
    ensures
        r is None <==> has_nul_unit(utf16_of(s@)),
        r matches Some(w) ==> w@ == utf16_of(s@).push(0),
{
    let mut units = utf16_units(s);
    let n = units.len();
    let mut i: usize = 0;
    while i < n
        invariant
            n == units@.len(),
            units@ == utf16_of(s@),
            i <= n,
            forall|j: int| 0 <= j < i ==> units@[j] != 0,
        decreases n - i,
    {
        if units[i] == 0 {
            return None;
        }
        i = i + 1;
    }
    units.push(0);
    Some(units)
}

/// The failure for a text that cannot be a wide native string.
pub open spec fn refuses_wide(e: KeytarError, argument: Seq<char>) -> bool {
    e matches KeytarError::InvalidArg { argument: a, .. } && a@ == argument
}

/// The target name of an address: its composite key as NUL-terminated
/// UTF-16.
pub fn target_name(service: &str, account: &str) -> (r: Result<Vec<u16>, KeytarError>)
    ensures
        has_nul_unit(utf16_of(composite(service@, account@))) ==> (r matches Err(e) && refuses_wide(
            e,
            "service/account"@,
        )),
        !has_nul_unit(utf16_of(composite(service@, account@))) ==> (r matches Ok(w) && w@
            == utf16_of(composite(service@, account@)).push(0)),
{
    match encode_utf16(compose(service, account).as_str()) {
        Some(w) => Ok(w),
        None => Err(
            KeytarError::InvalidArg {
                argument: "service/account".to_owned(),
                details: "Service/account could not be converted to UTF-16.".to_owned(),
            },
        ),
    }
}

/// The user name stored with a credential: the account as NUL-terminated
/// UTF-16.
pub fn user_name(account: &str) -> (r: Result<Vec<u16>, KeytarError>)
    ensures
        has_nul_unit(utf16_of(account@)) ==> (r matches Err(e) && refuses_wide(e, "username"@)),
        !has_nul_unit(utf16_of(account@)) ==> (r matches Ok(w) && w@ == utf16_of(account@).push(0)),
{
    match encode_utf16(account) {
        Some(w) => Ok(w),
        None => Err(
            KeytarError::InvalidArg {
                argument: "username".to_owned(),
                details: "Username could not be converted to UTF-16.".to_owned(),
            },
        ),
    }
}

/// The enumeration filter for a service: the pattern `service*`.
pub fn service_filter(service: &str) -> (r: Result<Vec<u16>, KeytarError>)
    ensures
        has_nul_unit(utf16_of(service@ + seq!['*'])) ==> (r matches Err(e) && refuses_wide(
            e,
            "service"@,
        )),
        !has_nul_unit(utf16_of(service@ + seq!['*'])) ==> (r matches Ok(w) && w@ == utf16_of(
            service@ + seq!['*'],
        ).push(0)),
{
    let pattern = service.to_owned().concat("*");
    proof {
        reveal_strlit("*");
    }
    assert(pattern@ =~= service@ + seq!['*']);
    match encode_utf16(pattern.as_str()) {
        Some(w) => Ok(w),
        None => Err(
            KeytarError::InvalidArg {
                argument: "service".to_owned(),
                details: "Service could not be converted to UTF-16.".to_owned(),
            },
        ),
    }
}

/// A failed call, by its Win32 error code and the system's message for it:
/// "element not found" is absence, anything else an OS failure.
pub fn classify<T>(code: u32, message: String) -> (r: Native<T>)
    ensures
        code == ERROR_NOT_FOUND ==> r is Missing,
        code != ERROR_NOT_FOUND ==> (r matches Native::Failed(KeytarError::Os(m)) && m == message),
{
    if code == ERROR_NOT_FOUND {
        Native::Missing
    } else {
        Native::Failed(KeytarError::Os(message))
    }
}

/// A credential as an enumeration returned it: its user name's UTF-16
/// units (without the NUL), if it has one, and its blob.
#[derive(Debug)]
pub struct WinCredential {
    pub user_name: Option<Vec<u16>>,
    pub blob: Vec<u8>,
}

/// Whether an enumeration keeps a credential: it has a user name (every
/// credential this library writes has one). An empty secret is kept.
pub open spec fn kept(c: WinCredential) -> bool {
    c.user_name is Some
}

/// The credentials that an enumeration keeps, in order.
pub open spec fn kept_of(c: Seq<WinCredential>) -> Seq<WinCredential>
    decreases c.len(),
{
    if c.len() == 0 {
        seq![]
    } else if kept(c.last()) {
        kept_of(c.drop_last()).push(c.last())
    } else {
        kept_of(c.drop_last())
    }
}

/// Whether a kept credential decodes: its blob as UTF-8, its user name as
/// UTF-16.
pub open spec fn decodes(c: WinCredential) -> bool {
    valid_utf8(c.blob@) && exists|t: Seq<char>| utf16_of(t) == c.user_name->0@
}

/// Whether `v` holds the decoded records of `kept`, in order.
pub open spec fn decoded_records(v: Seq<(String, String)>, kept: Seq<WinCredential>) -> bool {
    &&& v.len() == kept.len()
    &&& forall|j: int|
        0 <= j < v.len() ==> utf16_of((#[trigger] v[j]).0@) == kept[j].user_name->0@ && v[j].1@
            == decode_utf8(kept[j].blob@)
}

/// The records of an enumeration: one (user name, secret) pair for each
/// credential with a user name. A blob that is not UTF-8, or a user name that is not
/// UTF-16, fails the whole call.
pub fn credential_records(creds: &Vec<WinCredential>) -> (r: Result<Vec<(String, String)>, KeytarError>)
    ensures
        r is Ok <==> forall|j: int|
            0 <= j < kept_of(creds@).len() ==> decodes(#[trigger] kept_of(creds@)[j]),
        r matches Ok(v) ==> decoded_records(v@, kept_of(creds@)),
        r matches Err(e) ==> e.spec_kind() == ErrorKind::EncodingFailure,
{
    let mut out: Vec<(String, String)> = Vec::new();
    let mut i: usize = 0;
    while i < creds.len()
        invariant
            i <= creds@.len(),
            decoded_records(out@, kept_of(creds@.take(i as int))),
            forall|j: int|
                0 <= j < kept_of(creds@.take(i as int)).len() ==> decodes(
                    #[trigger] kept_of(creds@.take(i as int))[j],
                ),
        decreases creds@.len() - i,
    {
        let ghost prefix = creds@.take(i as int);
        assert(creds@.take(i + 1).drop_last() =~= prefix);
        assert(creds@.take(i + 1).last() == creds@[i as int]);
        let c = &creds[i];
        match &c.user_name {
            Some(name) => {
                assert(kept_of(creds@.take(i + 1)) == kept_of(prefix).push(*c));
                let password = match payload_text(c.blob.as_slice()) {
                    Ok(p) => p,
                    Err(e) => {
                        proof {
                            lemma_kept_prefix(creds@, i as int + 1, creds@.len() as int);
                            assert(creds@.take(creds@.len() as int) =~= creds@);
                            let k = kept_of(prefix).len() as int;
                            assert(kept_of(creds@.take(i + 1))[k] == *c);
                            assert(kept_of(creds@)[k] == *c);
                            assert(!decodes(kept_of(creds@)[k]));
                        }
                        return Err(e);
                    },
                };
                let username = match utf16_text(name.as_slice()) {
                    Some(u) => u,
                    None => {
                        proof {
                            lemma_kept_prefix(creds@, i as int + 1, creds@.len() as int);
                            assert(creds@.take(creds@.len() as int) =~= creds@);
                            let k = kept_of(prefix).len() as int;
                            assert(kept_of(creds@.take(i + 1))[k] == *c);
                            assert(kept_of(creds@)[k] == *c);
                            assert(!decodes(kept_of(creds@)[k]));
                        }
                        return Err(KeytarError::Utf16("user name is not valid UTF-16".to_owned()));
                    },
                };
                let ghost old_out = out@;
                out.push((username, password));
                assert forall|j: int|
                    0 <= j < kept_of(creds@.take(i + 1)).len() implies decodes(
                        #[trigger] kept_of(creds@.take(i + 1))[j],
                    ) by {
                    if j < kept_of(prefix).len() {
                        assert(kept_of(creds@.take(i + 1))[j] == kept_of(prefix)[j]);
                    }
                }
                assert forall|j: int| 0 <= j < out@.len() implies utf16_of((#[trigger] out@[j]).0@)
                    == kept_of(creds@.take(i + 1))[j].user_name->0@ && out@[j].1@ == decode_utf8(
                    kept_of(creds@.take(i + 1))[j].blob@,
                ) by {
                    if j < old_out.len() {
                        assert(out@[j] == old_out[j]);
                        assert(kept_of(creds@.take(i + 1))[j] == kept_of(prefix)[j]);
                    }
                }
            },
            _ => {
                assert(kept_of(creds@.take(i + 1)) == kept_of(prefix));
            },
        }
        i = i + 1;
    }
    assert(creds@.take(i as int) =~= creds@);
    Ok(out)
}

/// The kept credentials of a prefix are a prefix of the kept credentials.
proof fn lemma_kept_prefix(c: Seq<WinCredential>, i: int, n: int)
    requires
        0 <= i <= n <= c.len(),
    ensures
        kept_of(c.take(i)).len() <= kept_of(c.take(n)).len(),
        forall|j: int|
            0 <= j < kept_of(c.take(i)).len() ==> #[trigger] kept_of(c.take(n))[j] == kept_of(
                c.take(i),
            )[j],
    decreases n - i,
{
    if i < n {
        lemma_kept_prefix(c, i, n - 1);
        assert(c.take(n).drop_last() =~= c.take(n - 1));
    }
    if n == c.len() {
        assert(c.take(n) =~= c);
    }
}

} // verus!
