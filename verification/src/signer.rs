//! The signing capability that a producer hands to its channel.

use vstd::prelude::*;

verus! {

/// Something that can sign bytes. The queue never looks into a signature: it
/// stores what the signer returned.
///
/// A signer written outside this library is taken at its word: nothing checks
/// that its `sign` returns only what its `signs` admits.
pub trait MessageSigner {
    /// Whether `signature` is one that this signer may return for `data`.
    /// A signer that says nothing of its signatures leaves this as it is.
    open spec fn signs(&self, data: Seq<u8>, signature: Seq<u8>) -> bool {
        true
    }

    /// Signs `data`.
    fn sign(&self, data: &[u8]) -> (signature: Vec<u8>)
        ensures
            self.signs(data@, signature@),
    ;
}

/// A signer that answers every request with the same bytes.
pub struct FixedSigner {
    pub signature: Vec<u8>,
}

impl MessageSigner for FixedSigner {
    open spec fn signs(&self, data: Seq<u8>, signature: Seq<u8>) -> bool {
        signature == self.signature@
    }

    fn sign(&self, data: &[u8]) -> (signature: Vec<u8>) {
        crate::bytes::clone_bytes(&self.signature)
    }
}

} // verus!
