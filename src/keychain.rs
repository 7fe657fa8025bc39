//! macOS Keychain: the decisions around its native calls.
//!
//! The keychain keys a generic password by separate service and account
//! attributes, so no composite key is stored.

use vstd::prelude::*;
use vstd::string::*;
use crate::address::{account_part, decompose, service_part, slash_free};
use crate::error::KeytarError;
use crate::outcome::Native;

verus! {

/// The Security framework's status for "the item cannot be found".
pub const ERR_SEC_ITEM_NOT_FOUND: i32 = -25300;

/// A failure of the Security framework, with its description.
pub open spec fn is_keychain_failure(e: KeytarError, details: String) -> bool {
    e matches KeytarError::Library { name, details: d } && name@ == "security_framework"@ && d
        == details
}

pub fn keychain_failure(details: String) -> (r: KeytarError)
    ensures
        is_keychain_failure(r, details),
{
    KeytarError::Library { name: "security_framework".to_owned(), details }
}

/// A failed call, by its status and the framework's description of it:
/// "item not found" is absence, anything else a backend failure.
pub fn classify<T>(status: i32, details: String) -> (r: Native<T>)
    ensures
        status == ERR_SEC_ITEM_NOT_FOUND ==> r is Missing,
        status != ERR_SEC_ITEM_NOT_FOUND ==> (r matches Native::Failed(e) && is_keychain_failure(
            e,
            details,
        )),
{
    if status == ERR_SEC_ITEM_NOT_FOUND {
        Native::Missing
    } else {
        Native::Failed(keychain_failure(details))
    }
}

/// What a find looks up in the keychain.
#[derive(Debug)]
pub enum KeychainQuery {
    /// The one generic password of this service and account.
    Exact { service: String, account: String },
    /// The generic passwords of this service, whatever their account.
    Service(String),
}

/// What a find names: for an input that holds a `/`, the service and
/// account it splits into on the first `/`; for a bare service, every
/// entry of that service.
pub fn keychain_query(service: &str) -> (r: KeychainQuery)
    ensures
        slash_free(service@) ==> (r matches KeychainQuery::Service(s) && s@ == service@),
        !slash_free(service@) ==> (r matches KeychainQuery::Exact { service: s, account: a } && s@
            == service_part(service@) && Some(a@) == account_part(service@)),
{
    let (head, account) = decompose(service);
    match account {
        Some(a) => KeychainQuery::Exact { service: head, account: a },
        None => KeychainQuery::Service(service.to_owned()),
    }
}

} // verus!
