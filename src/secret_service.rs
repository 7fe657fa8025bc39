//! The freedesktop Secret Service: the decisions around its IPC calls.
//!
//! Entries are keyed by the attributes `service` and `account` of a generic
//! schema, and labelled with their composite key.

use vstd::prelude::*;
use vstd::string::*;
use crate::address::{account_part, composite, compose, decompose, service_part, slash_free};
use crate::error::KeytarError;
use crate::keyctl::{contains_text, is_infix};
use crate::outcome::Native;

verus! {

/// The attribute set of an address.
pub open spec fn is_address_attributes(
    r: Seq<(String, String)>,
    service: Seq<char>,
    account: Seq<char>,
) -> bool {
    &&& r.len() == 2
    &&& r[0].0@ == "service"@ && r[0].1@ == service
    &&& r[1].0@ == "account"@ && r[1].1@ == account
}

/// The schema's name.
pub fn schema_name() -> (r: &'static str)
    ensures
        r@ == "org.freedesktop.Secret.Generic"@,
{
    "org.freedesktop.Secret.Generic"
}

/// The attributes that key an address.
pub fn address_attributes(service: &str, account: &str) -> (r: Vec<(String, String)>)
    ensures
        is_address_attributes(r@, service@, account@),
{
    let mut r: Vec<(String, String)> = Vec::new();
    r.push(("service".to_owned(), service.to_owned()));
    r.push(("account".to_owned(), account.to_owned()));
    r
}

/// The label stored with an entry: its composite key.
pub fn entry_label(service: &str, account: &str) -> (r: String)
    ensures
        r@ == composite(service@, account@),
{
    compose(service, account)
}

/// The attributes that a find looks up: service and account for an input
/// that holds a `/`, split on the first one; the service alone otherwise.
pub fn lookup_attributes(service: &str) -> (r: Vec<(String, String)>)
    ensures
        !slash_free(service@) ==> is_address_attributes(
            r@,
            service_part(service@),
            account_part(service@)->0,
        ),
        slash_free(service@) ==> r@.len() == 1 && r@[0].0@ == "service"@ && r@[0].1@ == service@,
{
    let (head, account) = decompose(service);
    match account {
        Some(a) => address_attributes(head.as_str(), a.as_str()),
        None => {
            let mut r: Vec<(String, String)> = Vec::new();
            r.push(("service".to_owned(), service.to_owned()));
            r
        },
    }
}

/// A failed call: the service's own "not found" is absence, anything else a
/// backend failure with the service's message.
pub fn classify<T>(not_found: bool, message: String) -> (r: Native<T>)
    ensures
        not_found ==> r is Missing,
        !not_found ==> (r matches Native::Failed(KeytarError::Library { name, details }) && name@
            == "glib"@ && details == message),
{
    if not_found {
        Native::Missing
    } else {
        Native::Failed(KeytarError::Library { name: "glib".to_owned(), details: message })
    }
}

/// A failed collection search: a vanished item path is absence, anything
/// else an OS failure with the service's message.
pub fn classify_search<T>(message: String) -> (r: Native<T>)
    ensures
        is_infix("No such secret item at path"@, message@) ==> r is Missing,
        !is_infix("No such secret item at path"@, message@) ==> (r matches Native::Failed(
            KeytarError::Os(m),
        ) && m == message),
{
    if contains_text(message.as_str(), "No such secret item at path") {
        Native::Missing
    } else {
        Native::Failed(KeytarError::Os(message))
    }
}

} // verus!
