//! Identities, topics and messages.

use vstd::prelude::*;
use crate::bytes::{bytes_eq, clone_bytes};

verus! {

/// The identity of a sender, or of a subscriber's trust domain.
#[derive(Debug)]
pub enum Origin {
    /// A ledger-side actor, known by its name.
    Pallet(Vec<u8>),
    /// An off-chain worker, known by its public key.
    Worker(Vec<u8>),
}

/// What an [`Origin`] is: its variant and its identifying bytes.
pub enum OriginView {
    Pallet(Seq<u8>),
    Worker(Seq<u8>),
}

impl View for Origin {
    type V = OriginView;

    open spec fn view(&self) -> OriginView {
        match self {
            Origin::Pallet(name) => OriginView::Pallet(name@),
            Origin::Worker(key) => OriginView::Worker(key@),
        }
    }
}

impl OriginView {
    /// The identifying bytes, whatever the variant.
    pub open spec fn bytes(self) -> Seq<u8> {
        match self {
            OriginView::Pallet(name) => name,
            OriginView::Worker(key) => key,
        }
    }
}

impl Origin {
    /// The identifying bytes, whatever the variant.
    pub fn bytes(&self) -> (bytes: &Vec<u8>)
        ensures
            bytes@ == self@.bytes(),
    {
        match self {
            Origin::Pallet(name) => name,
            Origin::Worker(key) => key,
        }
    }
}

impl Clone for Origin {
    fn clone(&self) -> (copy: Origin)
        ensures
            copy@ == self@,
    {
        match self {
            Origin::Pallet(name) => Origin::Pallet(clone_bytes(name)),
            Origin::Worker(key) => Origin::Worker(clone_bytes(key)),
        }
    }
}

impl PartialEq for Origin {
    fn eq(&self, other: &Origin) -> (same: bool) {
        match (self, other) {
            (Origin::Pallet(a), Origin::Pallet(b)) => bytes_eq(a, b),
            (Origin::Worker(a), Origin::Worker(b)) => bytes_eq(a, b),
            _ => false,
        }
    }
}

impl vstd::std_specs::cmp::PartialEqSpecImpl for Origin {
    open spec fn obeys_eq_spec() -> bool {
        true
    }

    open spec fn eq_spec(&self, other: &Origin) -> bool {
        self@ == other@
    }
}

/// A topic: an opaque byte string that names a destination. Two paths match
/// only when they are equal byte for byte.
#[derive(Debug)]
pub struct Path {
    pub bytes: Vec<u8>,
}

impl View for Path {
    type V = Seq<u8>;

    open spec fn view(&self) -> Seq<u8> {
        self.bytes@
    }
}

impl Path {
    /// The topic that `bytes` name.
    pub fn new(bytes: Vec<u8>) -> (path: Path)
        ensures
            path@ == bytes@,
    {
        Path { bytes }
    }

    /// The bytes of the topic.
    pub fn path(&self) -> (bytes: &Vec<u8>)
        ensures
            bytes@ == self@,
    {
        &self.bytes
    }

    /// Exact match of two topics.
    pub fn matches(&self, other: &Path) -> (same: bool)
        ensures
            same == (self@ == other@),
    {
        bytes_eq(&self.bytes, &other.bytes)
    }
}

impl Clone for Path {
    fn clone(&self) -> (copy: Path)
        ensures
            copy@ == self@,
    {
        Path { bytes: clone_bytes(&self.bytes) }
    }
}

/// A message on its way from a sender to a topic.
#[derive(Debug)]
pub struct Message {
    pub sender: Origin,
    pub destination: Path,
    pub payload: Vec<u8>,
}

/// What a [`Message`] is.
pub struct MessageView {
    pub sender: OriginView,
    pub destination: Seq<u8>,
    pub payload: Seq<u8>,
}

impl View for Message {
    type V = MessageView;

    open spec fn view(&self) -> MessageView {
        MessageView {
            sender: self.sender@,
            destination: self.destination@,
            payload: self.payload@,
        }
    }
}

impl Message {
    /// The message from `sender` to the topic `destination` with `payload`.
    pub fn new(sender: Origin, destination: Vec<u8>, payload: Vec<u8>) -> (message: Message)
        ensures
            message@ == (MessageView {
                sender: sender@,
                destination: destination@,
                payload: payload@,
            }),
    {
        Message { sender, destination: Path::new(destination), payload }
    }
}

impl Clone for Message {
    fn clone(&self) -> (copy: Message)
        ensures
            copy@ == self@,
    {
        Message {
            sender: self.sender.clone(),
            destination: self.destination.clone(),
            payload: clone_bytes(&self.payload),
        }
    }
}

/// A message as the send queue keeps it: numbered and signed.
#[derive(Debug)]
pub struct SignedMessage {
    pub message: Message,
    pub sequence: u64,
    pub signature: Vec<u8>,
}

/// What a [`SignedMessage`] is.
pub struct SignedMessageView {
    pub message: MessageView,
    pub sequence: nat,
    pub signature: Seq<u8>,
}

impl View for SignedMessage {
    type V = SignedMessageView;

    open spec fn view(&self) -> SignedMessageView {
        SignedMessageView {
            message: self.message@,
            sequence: self.sequence as nat,
            signature: self.signature@,
        }
    }
}

impl Clone for SignedMessage {
    fn clone(&self) -> (copy: SignedMessage)
        ensures
            copy@ == self@,
    {
        SignedMessage {
            message: self.message.clone(),
            sequence: self.sequence,
            signature: clone_bytes(&self.signature),
        }
    }
}

} // verus!
