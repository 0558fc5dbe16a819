//! Deterministic derivation of a node's symmetric key from its identity
//! fingerprint.

use vstd::prelude::*;
use vstd::string::StrSliceExecFns;
use vstd::utf8::encode_utf8;

use crate::digest::{sha256_bytes, sha256_of};

verus! {

/// Fixed domain-separation context: keys derived here cannot collide with
/// keys derived elsewhere from the same fingerprint.
pub open spec fn key_domain() -> Seq<char> {
    "node-key-derivation:v1"@
}

/// The 256-bit node key: the SHA-256 digest of the domain-separation
/// context followed by the fingerprint, both UTF-8 encoded.
pub open spec fn node_key_of(fingerprint: Seq<char>) -> Seq<u8> {
    sha256_of(encode_utf8(key_domain()) + encode_utf8(fingerprint))
}

/// Derives the node's symmetric key from its stable identity fingerprint.
/// Identical fingerprints always yield identical keys, within a process and
/// across restarts.
pub fn derive_node_key(fingerprint: &str) -> (r: Vec<u8>)
    ensures
        r@ == node_key_of(fingerprint@),
        r@.len() == 32,
{
    let mut data = ("node-key-derivation:v1").as_bytes_vec();
    let mut fp_bytes = fingerprint.as_bytes_vec();
    data.append(&mut fp_bytes);
    sha256_bytes(data.as_slice())
}

} // verus!
