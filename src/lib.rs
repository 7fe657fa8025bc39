//! Uniform credential storage: set, get, delete and find a secret by
//! service and account over the host's native credential store.
//!
//! - `address`: the composite key `service/account`, and its split on the
//!   first `/`.
//! - `error`: the one failure vocabulary that every backend reports in.
//! - `outcome`: the shared rules that turn a classified native result into
//!   the uniform one (absence is `None`, `false` or an empty list).
//! - `keyctl` and `keyring`: the Linux kernel keyring. Each operation is a
//!   step machine; a driver performs the system calls it asks for.
//! - `wincred`, `keychain`, `secret_service`: the decisions of the Windows,
//!   macOS and freedesktop backends around their native calls.

pub mod address;
pub mod error;
pub mod keyctl;
pub mod keyring;
pub mod outcome;
pub mod wincred;
pub mod keychain;
pub mod secret_service;
