//! The outbound queue: one stream of sequence numbers per sender, and the
//! signed messages that wait to be forwarded.

use vstd::prelude::*;
use crate::codec::{encodable, encoded_message};
use crate::queue_model::{
    concat_lanes, lemma_enqueue_touches_its_sender_only, lemma_filter_is_suffix, lemma_lane_index,
    lemma_push_keeps_wf, lemma_register_keeps, LaneView, SendQueueView,
};
use crate::signer::MessageSigner;
use crate::types::{Message, MessageView, Origin, OriginView, SignedMessage, SignedMessageView};

verus! {

/// Whether `threshold` is an answer of `threshold_for` to `origin`.
pub open spec fn answers<F: Fn(&Origin) -> u64>(
    threshold_for: F,
    origin: OriginView,
    threshold: u64,
) -> bool {
    exists|asked: Origin| asked@ == origin && call_ensures(threshold_for, (&asked,), threshold)
}

/// The views of a run of signed messages.
pub open spec fn signed_views(messages: Seq<SignedMessage>) -> Seq<SignedMessageView> {
    messages.map_values(|m: SignedMessage| m@)
}

struct Lane {
    origin: Origin,
    next_sequence: u64,
    messages: Vec<SignedMessage>,
}

impl View for Lane {
    type V = LaneView;

    closed spec fn view(&self) -> LaneView {
        LaneView {
            origin: self.origin@,
            next_sequence: self.next_sequence as nat,
            messages: signed_views(self.messages@),
        }
    }
}

/// Copies a run of signed messages.
fn clone_messages(messages: &Vec<SignedMessage>) -> (copy: Vec<SignedMessage>)
    ensures
        signed_views(copy@) == signed_views(messages@),
{
    let mut copy: Vec<SignedMessage> = Vec::new();
    let mut i: usize = 0;
    while i < messages.len()
        invariant
            i <= messages.len(),
            copy@.len() == i,
            forall|k: int| 0 <= k < i ==> copy@[k]@ == messages@[k]@,
        decreases messages.len() - i,
    {
        copy.push(messages[i].clone());
        i += 1;
    }
    assert(signed_views(copy@) =~= signed_views(messages@));
    copy
}

/// A producer's handle on the queue: bound to one origin and one signer.
pub struct MessageChannel<S: MessageSigner> {
    pub sender: Origin,
    pub signer: S,
}

impl<S: MessageSigner> MessageChannel<S> {
    /// The message that a send of `payload` to `destination` builds.
    pub open spec fn message(&self, payload: Seq<u8>, destination: Seq<u8>) -> MessageView {
        MessageView { sender: self.sender@, destination, payload }
    }

    /// Builds the message from this channel's origin to `destination`, has the
    /// signer sign its encoding, and appends it to the queue under the
    /// origin's next sequence number.
    pub fn send(&self, queue: &mut MessageSendQueue, payload: Vec<u8>, destination: Vec<u8>)
        requires
            old(queue).wf(),
            old(queue)@.next_sequence(self.sender@) < u64::MAX,
            encodable(self.message(payload@, destination@)),
        ensures
            final(queue).wf(),
            final(queue)@.next_sequence(self.sender@) == old(queue)@.next_sequence(self.sender@)
                + 1,
            forall|other: OriginView|
                other != self.sender@ ==> #[trigger] final(queue)@.next_sequence(other) == old(
                    queue,
                )@.next_sequence(other),
            forall|other: OriginView|
                other != self.sender@ ==> #[trigger] final(queue)@.messages(other) == old(
                    queue,
                )@.messages(other),
            exists|signature: Seq<u8>|
                {
                    &&& self.signer.signs(
                        encoded_message(self.message(payload@, destination@)),
                        signature,
                    )
                    &&& final(queue)@ == old(queue)@.enqueue(
                        self.message(payload@, destination@),
                        signature,
                    )
                },
    {
        let message = Message::new(self.sender.clone(), destination, payload);
        let data = message.encode();
        let signature = self.signer.sign(data.as_slice());
        let ghost signed = signature@;
        let _ = queue.enqueue(message, signature);
        assert(self.signer.signs(encoded_message(self.message(payload@, destination@)), signed));
    }
}

/// The outbound queue.
pub struct MessageSendQueue {
    lanes: Vec<Lane>,
}

impl View for MessageSendQueue {
    type V = SendQueueView;

    closed spec fn view(&self) -> SendQueueView {
        SendQueueView { lanes: self.lanes@.map_values(|lane: Lane| lane@) }
    }
}

impl Default for MessageSendQueue {
    fn default() -> (queue: MessageSendQueue)
        ensures
            queue@ == SendQueueView::empty(),
            queue.wf(),
    {
        MessageSendQueue::new()
    }
}

impl MessageSendQueue {
    /// The invariant of the queue: no origin has two lanes, and every lane is
    /// gap-free.
    pub open spec fn wf(&self) -> bool {
        self@.wf()
    }

    /// An empty queue.
    pub fn new() -> (queue: MessageSendQueue)
        ensures
            queue@ == SendQueueView::empty(),
            queue.wf(),
    {
        let queue = MessageSendQueue { lanes: Vec::new() };
        assert(queue@.lanes =~= Seq::empty());
        queue
    }

    /// Where the lane of `origin` stands, if the queue knows the origin.
    fn find(&self, origin: &Origin) -> (found: Option<usize>)
        requires
            self.wf(),
        ensures
            match found {
                Some(i) => self@.is_lane_of(i as int, origin@) && self@.lane_index(origin@) == i,
                None => !self@.has_lane(origin@),
            },
    {
        let mut i: usize = 0;
        while i < self.lanes.len()
            invariant
                i <= self.lanes.len(),
                self.wf(),
                forall|k: int| 0 <= k < i ==> !self@.is_lane_of(k, origin@),
            decreases self.lanes.len() - i,
        {
            if self.lanes[i].origin == *origin {
                assert(self@.is_lane_of(i as int, origin@));
                return Some(i);
            }
            i += 1;
        }
        None
    }

    /// Makes sure that the queue knows `origin`, and tells where its lane is.
    fn register(&mut self, origin: &Origin) -> (i: usize)
        requires
            old(self).wf(),
        ensures
            final(self)@ == old(self)@.register(origin@),
            final(self).wf(),
            final(self)@.is_lane_of(i as int, origin@),
            final(self)@.lane_index(origin@) == i,
    {
        match self.find(origin) {
            Some(i) => i,
            None => {
                let i = self.lanes.len();
                self.lanes.push(
                    Lane { origin: origin.clone(), next_sequence: 0, messages: Vec::new() },
                );
                proof {
                    let fresh = LaneView {
                        origin: origin@,
                        next_sequence: 0,
                        messages: Seq::empty(),
                    };
                    assert(self.lanes@[i as int]@.messages =~= Seq::empty());
                    assert(self@.lanes =~= old(self)@.lanes.push(fresh));
                    assert forall|a: int, b: int|
                        0 <= a < b < self@.lanes.len() implies self@.lanes[a].origin
                        != self@.lanes[b].origin by {
                        if b == i {
                            assert(!old(self)@.is_lane_of(a, origin@));
                        }
                    }
                    assert(self@.is_lane_of(i as int, origin@));
                    lemma_lane_index(self@, i as int, origin@);
                }
                i
            },
        }
    }

    /// Appends `message` with `signature` to the lane of its sender, under the
    /// sender's next sequence number, which it returns.
    pub fn enqueue(&mut self, message: Message, signature: Vec<u8>) -> (sequence: u64)
        requires
            old(self).wf(),
            old(self)@.next_sequence(message@.sender) < u64::MAX,
        ensures
            final(self)@ == old(self)@.enqueue(message@, signature@),
            final(self).wf(),
            sequence == old(self)@.next_sequence(message@.sender),
            final(self)@.next_sequence(message@.sender) == sequence + 1,
            forall|other: OriginView|
                other != message@.sender ==> #[trigger] final(self)@.next_sequence(other) == old(
                    self,
                )@.next_sequence(other),
            forall|other: OriginView|
                other != message@.sender ==> #[trigger] final(self)@.messages(other) == old(
                    self,
                )@.messages(other),
    {
        let i = self.register(&message.sender);
        let ghost known = self@;
        let ghost lane_before = self.lanes@[i as int]@;
        proof {
            lemma_register_keeps(old(self)@, message@.sender);
            assert(known.next_sequence(message@.sender) == old(self)@.next_sequence(
                message@.sender,
            ));
            assert(lane_before == known.lanes[i as int]);
            lemma_enqueue_touches_its_sender_only(old(self)@, message@, signature@);
        }
        let lane = &mut self.lanes[i];
        let sequence = lane.next_sequence;
        lane.messages.push(SignedMessage { message, sequence, signature });
        lane.next_sequence = sequence + 1;
        proof {
            let lane_after = self.lanes@[i as int]@;
            assert(lane_after.messages =~= lane_before.push(message@, signature@).messages);
            assert(lane_after == lane_before.push(message@, signature@));
            assert(self@.lanes =~= known.lanes.update(i as int, lane_after));
            lemma_push_keeps_wf(known, i as int, message@, signature@);
        }
        sequence
    }

    /// A producer's handle for `origin`, which signs with `signer`. The queue
    /// registers the origin if it is new; all channels of one origin share its
    /// sequence numbers.
    pub fn channel<S: MessageSigner>(&mut self, origin: Origin, signer: S) -> (channel:
        MessageChannel<S>)
        requires
            old(self).wf(),
        ensures
            final(self)@ == old(self)@.register(origin@),
            final(self).wf(),
            channel.sender@ == origin@,
            channel.signer == signer,
    {
        let _ = self.register(&origin);
        MessageChannel { sender: origin, signer }
    }

    /// A copy of the buffered messages of `origin`, by ascending sequence
    /// number: the numbers run up to the origin's next number without a gap.
    pub fn messages(&self, origin: &Origin) -> (messages: Vec<SignedMessage>)
        requires
            self.wf(),
        ensures
            signed_views(messages@) == self@.messages(origin@),
            forall|k: int|
                0 <= k < messages@.len() ==> {
                    &&& (#[trigger] messages@[k]).sequence == self@.next_sequence(origin@)
                        - messages@.len() + k
                    &&& messages@[k].message@.sender == origin@
                },
    {
        match self.find(origin) {
            Some(i) => {
                let messages = clone_messages(&self.lanes[i].messages);
                proof {
                    let lane = self@.lanes[i as int];
                    assert(lane.wf());
                    assert forall|k: int| 0 <= k < messages@.len() implies {
                        &&& (#[trigger] messages@[k]).sequence == self@.next_sequence(origin@)
                            - messages@.len() + k
                        &&& messages@[k].message@.sender == origin@
                    } by {
                        assert(signed_views(messages@)[k] == messages@[k]@);
                        assert(lane.messages[k] == messages@[k]@);
                    }
                }
                messages
            },
            None => {
                let messages: Vec<SignedMessage> = Vec::new();
                assert(signed_views(messages@) =~= Seq::empty());
                messages
            },
        }
    }

    /// A copy of all buffered messages: origin after origin, in the order in
    /// which the queue first met the origins, each origin's messages by
    /// ascending sequence number.
    pub fn all_messages(&self) -> (messages: Vec<SignedMessage>)
        requires
            self.wf(),
        ensures
            signed_views(messages@) == self@.all_messages(),
    {
        let mut messages: Vec<SignedMessage> = Vec::new();
        let mut i: usize = 0;
        assert(self@.lanes.take(0) =~= Seq::empty());
        assert(signed_views(messages@) =~= Seq::empty());
        while i < self.lanes.len()
            invariant
                i <= self.lanes.len(),
                signed_views(messages@) == concat_lanes(self@.lanes.take(i as int)),
            decreases self.lanes.len() - i,
        {
            let mut part = clone_messages(&self.lanes[i].messages);
            let ghost before = messages@;
            let ghost added = part@;
            messages.append(&mut part);
            proof {
                let upto = self@.lanes.take(i + 1);
                assert(upto.drop_last() =~= self@.lanes.take(i as int));
                assert(upto.last() == self@.lanes[i as int]);
                assert(signed_views(before + added) =~= signed_views(before) + signed_views(
                    added,
                ));
            }
            i += 1;
        }
        assert(self@.lanes.take(i as int) =~= self@.lanes);
        messages
    }

    /// Drops from lane `i` the messages numbered below `threshold`.
    fn purge_lane(&mut self, i: usize, threshold: u64)
        requires
            old(self).wf(),
            i < old(self)@.lanes.len(),
        ensures
            final(self).wf(),
            final(self)@.lanes == old(self)@.lanes.update(
                i as int,
                old(self)@.lanes[i as int].purge(threshold as nat),
            ),
    {
        let ghost before = self.lanes@[i as int]@;
        assert(before == self@.lanes[i as int]);
        assert(before.wf());
        let lane = &mut self.lanes[i];
        let mut cut: usize = 0;
        while cut < lane.messages.len() && lane.messages[cut].sequence < threshold
            invariant
                cut <= lane.messages.len(),
                lane@ == before,
                before.wf(),
                forall|k: int| 0 <= k < cut ==> before.messages[k].sequence < threshold,
            decreases lane.messages.len() - cut,
        {
            cut += 1;
        }
        let kept = lane.messages.split_off(cut);
        lane.messages = kept;
        proof {
            let after = self.lanes@[i as int]@;
            assert forall|k: int|
                cut <= k < before.messages.len() implies before.messages[k].sequence
                >= threshold by {
                assert(before.messages[cut as int].sequence >= threshold);
            }
            lemma_filter_is_suffix(before.messages, cut as int, threshold as nat);
            assert(after.messages =~= before.messages.subrange(
                cut as int,
                before.messages.len() as int,
            ));
            assert(after == before.purge(threshold as nat));
            assert(self@.lanes =~= old(self)@.lanes.update(i as int, after));
            assert(after.wf());
            assert forall|k: int| 0 <= k < self@.lanes.len() implies (
            #[trigger] self@.lanes[k]).wf() by {
                assert(old(self)@.lanes[k].wf());
            }
            assert forall|a: int, b: int|
                0 <= a < b < self@.lanes.len() implies self@.lanes[a].origin
                != self@.lanes[b].origin by {
                assert(old(self)@.lanes[a].origin != old(self)@.lanes[b].origin);
            }
        }
    }

    /// Drops the messages of `origin` numbered below `threshold`; the rest
    /// stays as it is and in its order.
    pub fn purge_below(&mut self, origin: &Origin, threshold: u64)
        requires
            old(self).wf(),
        ensures
            final(self).wf(),
            final(self)@ == old(self)@.purge_below(origin@, threshold as nat),
    {
        match self.find(origin) {
            Some(i) => self.purge_lane(i, threshold),
            None => {},
        }
    }

    /// Asks `threshold_for` once for each origin that has buffered messages,
    /// and drops that origin's messages numbered below the answer. What is at
    /// or above the answer stays, in its order.
    pub fn purge<F: Fn(&Origin) -> u64>(&mut self, threshold_for: F)
        requires
            old(self).wf(),
            forall|origin: Origin|
                old(self)@.has_lane(origin@) ==> call_requires(threshold_for, (&origin,)),
        ensures
            final(self).wf(),
            exists|threshold: spec_fn(OriginView) -> u64|
                {
                    &&& final(self)@ == old(self)@.purge(threshold)
                    &&& forall|i: int|
                        0 <= i < old(self)@.lanes.len() && (#[trigger] old(self)@.lanes[i])
                            .messages.len() > 0 ==> answers(
                            threshold_for,
                            old(self)@.lanes[i].origin,
                            threshold(old(self)@.lanes[i].origin),
                        )
                },
    {
        let ghost start = self@;
        let ghost mut asked: Seq<u64> = Seq::empty();
        let mut i: usize = 0;
        while i < self.lanes.len()
            invariant
                i <= self.lanes.len(),
                self.wf(),
                start.wf(),
                self@.lanes.len() == start.lanes.len(),
                asked.len() == i,
                forall|origin: Origin|
                    start.has_lane(origin@) ==> call_requires(threshold_for, (&origin,)),
                forall|k: int|
                    0 <= k < i ==> (#[trigger] self@.lanes[k]) == start.lanes[k].purge(
                        asked[k] as nat,
                    ),
                forall|k: int|
                    i <= k < self@.lanes.len() ==> (#[trigger] self@.lanes[k]) == start.lanes[k],
                forall|k: int|
                    0 <= k < i && (#[trigger] start.lanes[k]).messages.len() > 0 ==> answers(
                        threshold_for,
                        start.lanes[k].origin,
                        asked[k],
                    ),
            decreases self.lanes.len() - i,
        {
            assert(self@.lanes[i as int] == start.lanes[i as int]);
            assert(self@.lanes[i as int] == self.lanes@[i as int]@);
            if self.lanes[i].messages.len() > 0 {
                assert(start.is_lane_of(i as int, self.lanes[i as int].origin@));
                let threshold = threshold_for(&self.lanes[i].origin);
                assert(answers(threshold_for, start.lanes[i as int].origin, threshold));
                self.purge_lane(i, threshold);
                proof {
                    assert(self.lanes@.len() == self@.lanes.len());
                    asked = asked.push(threshold);
                }
            } else {
                proof {
                    asked = asked.push(0);
                    assert(start.lanes[i as int].messages.len() == 0);
                    lemma_filter_is_suffix(start.lanes[i as int].messages, 0, 0);
                    assert(start.lanes[i as int].purge(0).messages
                        =~= start.lanes[i as int].messages);
                }
            }
            i += 1;
        }
        proof {
            let threshold = |origin: OriginView|
                if start.has_lane(origin) {
                    asked[start.lane_index(origin)]
                } else {
                    0u64
                };
            assert forall|k: int| 0 <= k < start.lanes.len() implies threshold(
                (#[trigger] start.lanes[k]).origin,
            ) == asked[k] by {
                assert(start.is_lane_of(k, start.lanes[k].origin));
                lemma_lane_index(start, k, start.lanes[k].origin);
            }
            assert(self@.lanes =~= start.purge(threshold).lanes);
            assert(self@ == start.purge(threshold));
        }
    }

    /// The sequence number that the next message of `origin` gets.
    pub fn next_sequence(&self, origin: &Origin) -> (next: u64)
        requires
            self.wf(),
        ensures
            next == self@.next_sequence(origin@),
    {
        match self.find(origin) {
            Some(i) => self.lanes[i].next_sequence,
            None => 0,
        }
    }
}

} // verus!
