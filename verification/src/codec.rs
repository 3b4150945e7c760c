//! The canonical byte encoding of a message: the bytes that a signer signs.
//!
//! A byte string is written as its length in compact form followed by the
//! bytes themselves; an origin as one byte for its variant followed by its
//! identifying bytes; a message as its sender, destination and payload, in
//! that order.

use vstd::prelude::*;
use crate::types::{Message, MessageView, Origin, OriginView};

verus! {

/// The compact form of a length below 2^32: one, two, four or five bytes,
/// whose lowest two bits tell which, the rest little-endian.
pub open spec fn compact_length(n: nat) -> Seq<u8>
    recommends
        n <= u32::MAX,
{
    if n < 0x40 {
        seq![(4 * n) as u8]
    } else if n < 0x4000 {
        seq![((4 * n + 1) % 256) as u8, ((4 * n + 1) / 256) as u8]
    } else if n < 0x4000_0000 {
        seq![
            ((4 * n + 2) % 256) as u8,
            ((4 * n + 2) / 0x100 % 256) as u8,
            ((4 * n + 2) / 0x1_0000 % 256) as u8,
            ((4 * n + 2) / 0x100_0000) as u8,
        ]
    } else {
        seq![
            3u8,
            (n % 256) as u8,
            (n / 0x100 % 256) as u8,
            (n / 0x1_0000 % 256) as u8,
            (n / 0x100_0000) as u8,
        ]
    }
}

/// A byte string, encoded: its compact length, then its bytes.
pub open spec fn encoded_bytes(bytes: Seq<u8>) -> Seq<u8> {
    compact_length(bytes.len()) + bytes
}

/// An origin, encoded: the index of its variant, then its bytes.
pub open spec fn encoded_origin(origin: OriginView) -> Seq<u8> {
    match origin {
        OriginView::Pallet(name) => seq![0u8] + encoded_bytes(name),
        OriginView::Worker(key) => seq![1u8] + encoded_bytes(key),
    }
}

/// A message, encoded: sender, destination, payload.
pub open spec fn encoded_message(message: MessageView) -> Seq<u8> {
    encoded_origin(message.sender) + encoded_bytes(message.destination) + encoded_bytes(
        message.payload,
    )
}

/// Whether every byte string of the message is short enough to be encoded.
pub open spec fn encodable(message: MessageView) -> bool {
    &&& message.sender.bytes().len() <= u32::MAX
    &&& message.destination.len() <= u32::MAX
    &&& message.payload.len() <= u32::MAX
}

/// Calls `parity_scale_codec::Encode::encode` on a byte vector. Not proved:
/// that the result is the compact form of the length followed by the bytes
/// unchanged. The codec refuses a length above `u32::MAX`, which is left out.
#[verifier::external_body]
fn encode_bytes(bytes: &Vec<u8>) -> (out: Vec<u8>)
    requires
        bytes@.len() <= u32::MAX,
    ensures
        out@ == encoded_bytes(bytes@),
{
    parity_scale_codec::Encode::encode(bytes)
}

impl Origin {
    /// The canonical encoding of the origin.
    pub fn encode(&self) -> (out: Vec<u8>)
        requires
            self@.bytes().len() <= u32::MAX,
        ensures
            out@ == encoded_origin(self@),
    {
        let mut out: Vec<u8> = Vec::new();
        match self {
            Origin::Pallet(name) => {
                out.push(0u8);
                let mut body = encode_bytes(name);
                out.append(&mut body);
            },
            Origin::Worker(key) => {
                out.push(1u8);
                let mut body = encode_bytes(key);
                out.append(&mut body);
            },
        }
        assert(out@ =~= encoded_origin(self@));
        out
    }
}

impl Message {
    /// The canonical encoding of the message.
    pub fn encode(&self) -> (out: Vec<u8>)
        requires
            encodable(self@),
        ensures
            out@ == encoded_message(self@),
    {
        let mut out = self.sender.encode();
        let mut destination = encode_bytes(self.destination.path());
        let mut payload = encode_bytes(&self.payload);
        out.append(&mut destination);
        out.append(&mut payload);
        out
    }

    /// Whether the message can be encoded: the test to make before a send.
    pub fn is_encodable(&self) -> (yes: bool)
        ensures
            yes == encodable(self@),
    {
        let limit: usize = 0xffff_ffff;
        self.sender.bytes().len() <= limit && self.destination.path().len() <= limit
            && self.payload.len() <= limit
    }
}

} // verus!
