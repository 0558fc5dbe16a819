//! A container for sensitive text that can be wiped from memory on demand
//! and never discloses its content through a printable representation.

use vstd::prelude::*;
use vstd::slice::slice_to_vec;
use vstd::string::StrSliceExecFns;
use vstd::utf8::{decode_utf8, encode_utf8, encode_utf8_valid_utf8, valid_utf8};

use zeroize::Zeroize;

use crate::encoding::string_from_utf8;

verus! {

/// Relies on zeroize::Zeroize for Vec<u8>: overwrites the initialized
/// elements and the spare capacity with zeros and clears the vector, with
/// writes the compiler may not elide.
#[verifier::external_body]
fn zeroize_bytes(bytes: &mut Vec<u8>)
    ensures
        final(bytes)@ == Seq::<u8>::empty(),
{
    bytes.zeroize()
}

/// Owns the bytes of a sensitive text payload. The view is the byte
/// content; the backing storage is overwritten with zeros when the owning
/// scope ends, on every exit path, and [`Self::wipe`] zeroes it earlier on
/// demand. The printable representation is always the fixed label of
/// [`Self::redacted`].
pub struct SecurePayload {
    content: Vec<u8>,
}

impl Drop for SecurePayload {
    /// Relies on zeroize::Zeroize for Vec<u8>: when the payload's owning
    /// scope ends — normally or through an early exit — the backing bytes
    /// and the spare capacity are overwritten with zeros, with writes the
    /// compiler may not elide.
    #[verifier::external_body]
    fn drop(&mut self)
        opens_invariants none
        no_unwind
    {
        self.content.zeroize()
    }
}

impl View for SecurePayload {
    type V = Seq<u8>;

    closed spec fn view(&self) -> Seq<u8> {
        self.content@
    }
}

impl SecurePayload {
    /// The content is well-formed text (trivially so once wiped).
    pub open spec fn wf(&self) -> bool {
        valid_utf8(self@)
    }

    /// Takes ownership of the sensitive text.
    pub fn new(data: String) -> (r: SecurePayload)
        ensures
            r@ == encode_utf8(data@),
            r.wf(),
    {
        let content = data.as_str().as_bytes_vec();
        proof {
            encode_utf8_valid_utf8(data@);
        }
        SecurePayload { content }
    }

    /// A read-only rendering of the content. The caller is responsible for
    /// the copy's lifetime; the payload itself stays wipeable.
    pub fn read_sensitive(&self) -> (r: String)
        requires
            self.wf(),
        ensures
            r@ == decode_utf8(self@),
    {
        match string_from_utf8(slice_to_vec(self.content.as_slice())) {
            Some(text) => text,
            None => {
                proof {
                    assert(false);
                }
                String::new()
            },
        }
    }

    /// Overwrites the backing storage with zeros. After the wipe the
    /// payload holds nothing: reading it yields the empty string.
    pub fn wipe(&mut self)
        ensures
            final(self)@ == Seq::<u8>::empty(),
            final(self).wf(),
    {
        zeroize_bytes(&mut self.content);
    }

    /// The fixed printable representation; never the content.
    pub fn redacted(&self) -> (r: String)
        ensures
            r@ == "SecurePayload(***REDACTED***)"@,
    {
        ("SecurePayload(***REDACTED***)").to_owned()
    }
}

} // verus!
