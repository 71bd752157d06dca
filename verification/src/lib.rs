//! Interactive blind signatures over the Ristretto group.
//!
//! A signer issues a signature on a message that it never sees, in four
//! moves between it and the user. `common` holds the scalars and group
//! elements, the hash oracles and the interface of such a scheme; `schnorr`
//! and `abe` are two schemes; `webserver` is the signer's side of a service
//! that serves the sessions of many clients, and the client's side of one
//! session; `group` states the laws of the group, on which the correctness
//! of the schemes rests.
#![allow(non_snake_case)]

pub mod abe;
pub mod common;
pub mod group;
pub mod schnorr;
pub mod webserver;
