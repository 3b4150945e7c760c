//! The context of one block: its number and time, the storage snapshot, and
//! the two halves of the message bus, lent for as long as the block is handled.

use vstd::prelude::*;
use crate::bytes::{bytes_eq, clone_bytes};
use crate::dispatcher::MessageDispatcher;
use crate::send_queue::MessageSendQueue;

verus! {

pub type BlockNumber = u32;

/// One key of the storage snapshot with its value.
pub struct StorageEntry {
    pub key: Vec<u8>,
    pub value: Vec<u8>,
}

/// The storage as it was after a block: keys and values that nobody changes.
pub struct Storage {
    pub entries: Vec<StorageEntry>,
}

/// The value of the first of `entries` under `key`.
pub open spec fn lookup(entries: Seq<StorageEntry>, key: Seq<u8>) -> Option<Seq<u8>>
    decreases entries.len(),
{
    if entries.len() == 0 {
        None
    } else if entries[0].key@ == key {
        Some(entries[0].value@)
    } else {
        lookup(entries.skip(1), key)
    }
}

impl Storage {
    /// The value under `key`.
    pub open spec fn value(&self, key: Seq<u8>) -> Option<Seq<u8>> {
        lookup(self.entries@, key)
    }

    /// A snapshot of `entries`; of two entries with one key the first counts.
    pub fn new(entries: Vec<StorageEntry>) -> (storage: Storage)
        ensures
            storage.entries == entries,
    {
        Storage { entries }
    }

    /// A copy of the value under `key`, if there is one.
    pub fn get(&self, key: &Vec<u8>) -> (value: Option<Vec<u8>>)
        ensures
            match value {
                Some(bytes) => self.value(key@) == Some(bytes@),
                None => self.value(key@).is_none(),
            },
    {
        let mut i: usize = 0;
        assert(self.entries@.skip(0) =~= self.entries@);
        while i < self.entries.len()
            invariant
                i <= self.entries.len(),
                self.value(key@) == lookup(self.entries@.skip(i as int), key@),
            decreases self.entries.len() - i,
        {
            if bytes_eq(&self.entries[i].key, key) {
                return Some(clone_bytes(&self.entries[i].value));
            }
            assert(self.entries@.skip(i as int).skip(1) =~= self.entries@.skip(i + 1));
            i += 1;
        }
        None
    }
}

impl Default for Storage {
    fn default() -> (storage: Storage)
        ensures
            storage.entries@.len() == 0,
    {
        Storage { entries: Vec::new() }
    }
}

/// What handling one block works with. It owns neither queue nor dispatcher:
/// it borrows them, and the next block gets them back.
pub struct BlockInfo<'a> {
    /// The block number.
    pub block_number: BlockNumber,
    /// The timestamp of this block.
    pub now_ms: u64,
    /// The storage snapshot after this block executed.
    pub storage: &'a Storage,
    /// The outbound queue.
    pub send_mq: &'a mut MessageSendQueue,
    /// The inbound dispatcher.
    pub recv_mq: &'a mut MessageDispatcher,
}

impl BlockInfo<'_> {
    /// A builder with block 0 at time 0, an empty snapshot and an empty bus.
    pub fn builder() -> (builder: BlockInfoBuilder)
        ensures
            builder.block_number == 0,
            builder.now_ms == 0,
            builder.storage.entries@.len() == 0,
            builder.send_mq.wf(),
            builder.send_mq@.lanes.len() == 0,
            builder.recv_mq@.subscriptions.len() == 0,
    {
        BlockInfoBuilder::default()
    }
}

/// Owns what a [`BlockInfo`] borrows.
pub struct BlockInfoBuilder {
    /// The block number.
    pub block_number: BlockNumber,
    /// The timestamp of this block.
    pub now_ms: u64,
    pub storage: Storage,
    pub send_mq: MessageSendQueue,
    pub recv_mq: MessageDispatcher,
}

impl Default for BlockInfoBuilder {
    fn default() -> (builder: BlockInfoBuilder)
        ensures
            builder.block_number == 0,
            builder.now_ms == 0,
            builder.storage.entries@.len() == 0,
            builder.send_mq.wf(),
            builder.send_mq@.lanes.len() == 0,
            builder.recv_mq@.subscriptions.len() == 0,
    {
        BlockInfoBuilder {
            block_number: 0,
            now_ms: 0,
            storage: Storage::default(),
            send_mq: MessageSendQueue::default(),
            recv_mq: MessageDispatcher::default(),
        }
    }
}

impl BlockInfoBuilder {
    /// The same builder for block `block_number`.
    pub fn block_number(self, block_number: BlockNumber) -> (builder: BlockInfoBuilder)
        ensures
            builder == (BlockInfoBuilder { block_number, ..self }),
    {
        BlockInfoBuilder { block_number, ..self }
    }

    /// The same builder at time `now_ms`.
    pub fn now_ms(self, now_ms: u64) -> (builder: BlockInfoBuilder)
        ensures
            builder == (BlockInfoBuilder { now_ms, ..self }),
    {
        BlockInfoBuilder { now_ms, ..self }
    }

    /// Lends the builder's parts to a context for one block. What the block's
    /// handling does to queue and dispatcher is what the builder holds
    /// afterwards; number, time and snapshot stay as they are.
    pub fn build(&mut self) -> (info: BlockInfo<'_>)
        ensures
            info.block_number == old(self).block_number,
            info.now_ms == old(self).now_ms,
            *info.storage == old(self).storage,
            *info.send_mq == old(self).send_mq,
            *info.recv_mq == old(self).recv_mq,
            *final(self) == (BlockInfoBuilder {
                block_number: old(self).block_number,
                now_ms: old(self).now_ms,
                storage: old(self).storage,
                send_mq: *final(info.send_mq),
                recv_mq: *final(info.recv_mq),
            }),
    {
        BlockInfo {
            block_number: self.block_number,
            now_ms: self.now_ms,
            storage: &self.storage,
            send_mq: &mut self.send_mq,
            recv_mq: &mut self.recv_mq,
        }
    }
}

/// Where a transaction stands: its block, and its place in the block.
#[derive(Debug)]
pub struct TxRef {
    pub blocknum: BlockNumber,
    pub index: u64,
}

impl Clone for TxRef {
    fn clone(&self) -> (copy: TxRef)
        ensures
            copy == *self,
    {
        TxRef { blocknum: self.blocknum, index: self.index }
    }
}

} // verus!
