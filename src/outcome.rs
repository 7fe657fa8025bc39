//! Turning what a native store reported into the uniform results.
//!
//! Each backend first classifies its native failure: the store's own "not
//! found" signal becomes `Missing`, anything else a `Failed` with the
//! backend's diagnostic. From there every backend shares these rules:
//! absence is `None` for a read, `false` for a delete, an empty list for an
//! enumeration; payloads must be UTF-8.

use vstd::prelude::*;
use vstd::string::*;
use vstd::utf8::{decode_utf8, valid_utf8};
use crate::error::KeytarError;
use crate::keyctl::utf8_text;

verus! {

/// What a native call reported, classified.
#[derive(Debug)]
pub enum Native<T> {
    /// The call succeeded with this value.
    Done(T),
    /// The store reported that nothing matched.
    Missing,
    /// The store failed.
    Failed(KeytarError),
}

/// The failure for a payload that is not UTF-8.
pub open spec fn is_payload_failure(e: KeytarError) -> bool {
    e matches KeytarError::Utf8(d) && d@ == "Failed to convert credential to UTF-8"@
}

fn payload_failure() -> (r: KeytarError)
    ensures
        is_payload_failure(r),
{
    KeytarError::Utf8("Failed to convert credential to UTF-8".to_owned())
}

/// A stored payload as text.
pub fn payload_text(bytes: &[u8]) -> (r: Result<String, KeytarError>)
    ensures
        valid_utf8(bytes@) ==> (r matches Ok(t) && t@ == decode_utf8(bytes@)),
        !valid_utf8(bytes@) ==> (r matches Err(e) && is_payload_failure(e)),
{
    match utf8_text(bytes) {
        Some(t) => Ok(t),
        None => Err(payload_failure()),
    }
}

/// The result of a read: the secret's text, `None` when nothing matched.
pub fn read_result(n: Native<Vec<u8>>) -> (r: Result<Option<String>, KeytarError>)
    ensures
        n matches Native::Done(b) ==> if valid_utf8(b@) {
            r matches Ok(Some(t)) && t@ == decode_utf8(b@)
        } else {
            r matches Err(e) && is_payload_failure(e)
        },
        n is Missing ==> r matches Ok(None),
        n matches Native::Failed(e) ==> r == Err::<Option<String>, KeytarError>(e),
{
    match n {
        Native::Done(b) => match payload_text(b.as_slice()) {
            Ok(t) => Ok(Some(t)),
            Err(e) => Err(e),
        },
        Native::Missing => Ok(None),
        Native::Failed(e) => Err(e),
    }
}

/// The failure of a write that the store answered with "not found".
pub open spec fn is_write_refusal(e: KeytarError) -> bool {
    e matches KeytarError::Os(m) && m@ == "the store found nothing to write to"@
}

/// The result of a write. A write has no absence, and absence never
/// reaches a caller as an error: a store's "not found" on a write is a
/// backend failure.
pub fn write_result(n: Native<()>) -> (r: Result<bool, KeytarError>)
    ensures
        n is Done ==> r matches Ok(true),
        n is Missing ==> (r matches Err(e) && is_write_refusal(e)),
        n matches Native::Failed(e) ==> r == Err::<bool, KeytarError>(e),
{
    match n {
        Native::Done(_) => Ok(true),
        Native::Missing => Err(KeytarError::Os("the store found nothing to write to".to_owned())),
        Native::Failed(e) => Err(e),
    }
}

/// The result of a find that takes the first of the matching payloads:
/// its text, `None` when nothing matched.
pub fn first_result(n: Native<Vec<Vec<u8>>>) -> (r: Result<Option<String>, KeytarError>)
    ensures
        n matches Native::Done(v) ==> if v@.len() == 0 {
            r matches Ok(None)
        } else if valid_utf8(v@[0]@) {
            r matches Ok(Some(t)) && t@ == decode_utf8(v@[0]@)
        } else {
            r matches Err(e) && is_payload_failure(e)
        },
        n is Missing ==> r matches Ok(None),
        n matches Native::Failed(e) ==> r == Err::<Option<String>, KeytarError>(e),
{
    match n {
        Native::Done(v) => {
            if v.len() == 0 {
                Ok(None)
            } else {
                match payload_text(v[0].as_slice()) {
                    Ok(t) => Ok(Some(t)),
                    Err(e) => Err(e),
                }
            }
        },
        Native::Missing => Ok(None),
        Native::Failed(e) => Err(e),
    }
}

/// The result of a delete: `true` when an entry was removed, `false` when
/// there was none.
pub fn delete_result(n: Native<()>) -> (r: Result<bool, KeytarError>)
    ensures
        n is Done ==> r matches Ok(true),
        n is Missing ==> r matches Ok(false),
        n matches Native::Failed(e) ==> r == Err::<bool, KeytarError>(e),
{
    match n {
        Native::Done(_) => Ok(true),
        Native::Missing => Ok(false),
        Native::Failed(e) => Err(e),
    }
}

/// The text of each (identifier, payload) pair.
pub open spec fn decoded(items: Seq<(String, Vec<u8>)>) -> Seq<(Seq<char>, Seq<char>)> {
    items.map_values(|p: (String, Vec<u8>)| (p.0@, decode_utf8(p.1@)))
}

/// The text of each record.
pub open spec fn texts(v: Seq<(String, String)>) -> Seq<(Seq<char>, Seq<char>)> {
    v.map_values(|p: (String, String)| (p.0@, p.1@))
}

/// Whether every payload is UTF-8.
pub open spec fn all_utf8(items: Seq<(String, Vec<u8>)>) -> bool {
    forall|i: int| 0 <= i < items.len() ==> valid_utf8(#[trigger] items[i].1@)
}

/// The records of an enumeration, each payload decoded. One payload that
/// is not UTF-8 fails the whole call: no partial list is returned.
pub fn records(items: &Vec<(String, Vec<u8>)>) -> (r: Result<Vec<(String, String)>, KeytarError>)
    ensures
        all_utf8(items@) ==> (r matches Ok(v) && texts(v@) == decoded(items@)),
        !all_utf8(items@) ==> (r matches Err(e) && is_payload_failure(e)),
{
    let mut out: Vec<(String, String)> = Vec::new();
    let mut i: usize = 0;
    while i < items.len()
        invariant
            i <= items@.len(),
            all_utf8(items@.take(i as int)),
            texts(out@) == decoded(items@.take(i as int)),
        decreases items@.len() - i,
    {
        let name = &items[i].0;
        let payload = &items[i].1;
        match payload_text(payload.as_slice()) {
            Ok(text) => {
                let ghost old_out = out@;
                out.push((name.clone(), text));
                assert(texts(out@) =~= texts(old_out).push((name@, text@)));
                assert(items@.take(i + 1) =~= items@.take(i as int).push(items@[i as int]));
                assert(decoded(items@.take(i + 1)) =~= decoded(items@.take(i as int)).push(
                    (name@, decode_utf8(payload@)),
                ));
                i = i + 1;
            },
            Err(e) => {
                assert(!valid_utf8(items@[i as int].1@));
                return Err(e);
            },
        }
    }
    assert(items@.take(i as int) =~= items@);
    Ok(out)
}

/// The result of an enumeration: the decoded records, empty when nothing
/// matched.
pub fn list_result(n: Native<Vec<(String, Vec<u8>)>>) -> (r: Result<
    Vec<(String, String)>,
    KeytarError,
>)
    ensures
        n matches Native::Done(items) ==> if all_utf8(items@) {
            r matches Ok(v) && texts(v@) == decoded(items@)
        } else {
            r matches Err(e) && is_payload_failure(e)
        },
        n is Missing ==> (r matches Ok(v) && v@.len() == 0),
        n matches Native::Failed(e) ==> r == Err::<Vec<(String, String)>, KeytarError>(e),
{
    match n {
        Native::Done(items) => records(&items),
        Native::Missing => Ok(Vec::new()),
        Native::Failed(e) => Err(e),
    }
}

/// Whether a listed item has both an identifier and a payload.
pub open spec fn present(item: (Option<String>, Option<Vec<u8>>)) -> bool {
    item.0 is Some && item.1 is Some
}

/// The listed items that have both an identifier and a payload, in order.
pub open spec fn present_of(items: Seq<(Option<String>, Option<Vec<u8>>)>) -> Seq<
    (String, Vec<u8>),
>
    decreases items.len(),
{
    if items.len() == 0 {
        seq![]
    } else {
        let rest = present_of(items.drop_last());
        let last = items.last();
        if present(last) {
            rest.push((last.0->0, last.1->0))
        } else {
            rest
        }
    }
}

/// Keeps the listed items that have both an identifier and a payload.
pub fn present_items(items: Vec<(Option<String>, Option<Vec<u8>>)>) -> (r: Vec<(String, Vec<u8>)>)
    ensures
        r@ == present_of(items@),
{
    let ghost all = items@;
    let mut items = items;
    let mut kept_rev: Vec<(String, Vec<u8>)> = Vec::new();
    // Walk from the back, so that each item moves out without a copy.
    while items.len() > 0
        invariant
            present_of(all) == present_of(items@) + kept_rev@.reverse(),
        decreases items@.len(),
    {
        let ghost before = items@;
        let last = items.pop().unwrap();
        assert(before.drop_last() == items@);
        assert(before.last() == last);
        match last {
            (Some(name), Some(payload)) => {
                let ghost old_rev = kept_rev@;
                kept_rev.push((name, payload));
                assert(kept_rev@.reverse() =~= seq![(name, payload)] + old_rev.reverse());
                assert(present_of(before) == present_of(items@).push((name, payload)));
                assert(present_of(items@).push((name, payload)) + old_rev.reverse() =~= present_of(
                    items@,
                ) + kept_rev@.reverse());
            },
            _ => {},
        }
    }
    assert(present_of(items@) == Seq::<(String, Vec<u8>)>::empty());
    let mut out: Vec<(String, Vec<u8>)> = Vec::new();
    while kept_rev.len() > 0
        invariant
            present_of(all) == out@ + kept_rev@.reverse(),
        decreases kept_rev@.len(),
    {
        let ghost before = kept_rev@;
        let item = kept_rev.pop().unwrap();
        assert(before == kept_rev@.push(item));
        assert(before.reverse() =~= seq![item] + kept_rev@.reverse());
        out.push(item);
        assert(out@ + kept_rev@.reverse() =~= out@.drop_last() + before.reverse());
    }
    assert(out@ + kept_rev@.reverse() =~= out@);
    out
}

} // verus!
