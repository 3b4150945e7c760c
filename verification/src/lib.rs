//! An authenticated message bus between a ledger and off-chain workers.
//!
//! The outbound side is the [`MessageSendQueue`]: every sender has one stream
//! of sequence numbers, and every message is signed before it is buffered.
//! The inbound side is the [`MessageDispatcher`]: handlers subscribe to exact
//! topics and every dispatched message is copied to each matching receiver.
//! A [`BlockInfo`] lends both to whatever handles one block.
//!
//! Queue and dispatcher have one owner each, and every operation takes the
//! whole of it: whoever shares them between threads puts them behind a lock,
//! and each operation is then one step for everybody else.
//!
//! Beside the bus stand the decisions of what surrounds it: where a
//! cross-chain message goes ([`xcm_handler`]), and what the worker manager
//! does with its commands, its inventory and its messages ([`cli`],
//! [`inventory`], [`worker_manager`]).

pub mod block;
pub mod bytes;
pub mod cli;
pub mod codec;
pub mod dispatcher;
pub mod inventory;
pub mod queue_model;
pub mod send_queue;
pub mod signer;
pub mod types;
pub mod worker_manager;
pub mod xcm_handler;

pub use block::{BlockInfo, BlockInfoBuilder, BlockNumber, Storage, StorageEntry, TxRef};
pub use dispatcher::{MessageDispatcher, Receiver};
pub use send_queue::{MessageChannel, MessageSendQueue};
pub use signer::{FixedSigner, MessageSigner};
pub use types::{Message, Origin, Path, SignedMessage};
