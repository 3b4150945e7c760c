//! What the outbound queue is, as mathematics: lanes of numbered messages,
//! one lane per origin, and what sending and purging do to them.

use vstd::prelude::*;
use crate::types::{MessageView, OriginView, SignedMessageView};

verus! {

/// What the queue holds for one origin.
pub struct LaneView {
    pub origin: OriginView,
    /// The sequence number that the next message of this origin gets.
    pub next_sequence: nat,
    /// The buffered messages, oldest first.
    pub messages: Seq<SignedMessageView>,
}

impl LaneView {
    /// The buffered messages are the last ones sent: their numbers run up to
    /// `next_sequence` without a gap, and each carries the lane's origin.
    pub open spec fn wf(self) -> bool {
        &&& self.messages.len() <= self.next_sequence
        &&& forall|k: int|
            0 <= k < self.messages.len() ==> {
                &&& (#[trigger] self.messages[k]).sequence == self.next_sequence
                    - self.messages.len() + k
                &&& self.messages[k].message.sender == self.origin
            }
    }

    /// The lane after one more message.
    pub open spec fn push(self, message: MessageView, signature: Seq<u8>) -> LaneView {
        LaneView {
            origin: self.origin,
            next_sequence: self.next_sequence + 1,
            messages: self.messages.push(
                SignedMessageView { message, sequence: self.next_sequence, signature },
            ),
        }
    }

    /// The lane without the messages numbered below `threshold`.
    pub open spec fn purge(self, threshold: nat) -> LaneView {
        LaneView {
            origin: self.origin,
            next_sequence: self.next_sequence,
            messages: self.messages.filter(at_least(threshold)),
        }
    }
}

/// The test that a message survives a purge at `threshold`.
pub open spec fn at_least(threshold: nat) -> spec_fn(SignedMessageView) -> bool {
    |m: SignedMessageView| m.sequence >= threshold
}

/// The messages of the lanes, lane after lane.
pub open spec fn concat_lanes(lanes: Seq<LaneView>) -> Seq<SignedMessageView>
    decreases lanes.len(),
{
    if lanes.len() == 0 {
        Seq::empty()
    } else {
        concat_lanes(lanes.drop_last()) + lanes.last().messages
    }
}

/// What a [`MessageSendQueue`] is: its lanes, in the order in which the queue
/// first met their origins.
pub struct SendQueueView {
    pub lanes: Seq<LaneView>,
}

impl SendQueueView {
    pub open spec fn empty() -> SendQueueView {
        SendQueueView { lanes: Seq::empty() }
    }

    pub open spec fn wf(self) -> bool {
        &&& forall|i: int, j: int|
            0 <= i < j < self.lanes.len() ==> self.lanes[i].origin != self.lanes[j].origin
        &&& forall|i: int| 0 <= i < self.lanes.len() ==> (#[trigger] self.lanes[i]).wf()
    }

    pub open spec fn is_lane_of(self, i: int, origin: OriginView) -> bool {
        0 <= i < self.lanes.len() && self.lanes[i].origin == origin
    }

    pub open spec fn has_lane(self, origin: OriginView) -> bool {
        exists|i: int| self.is_lane_of(i, origin)
    }

    pub open spec fn lane_index(self, origin: OriginView) -> int {
        choose|i: int| self.is_lane_of(i, origin)
    }

    /// The sequence number that the next message of `origin` gets.
    pub open spec fn next_sequence(self, origin: OriginView) -> nat {
        if self.has_lane(origin) {
            self.lanes[self.lane_index(origin)].next_sequence
        } else {
            0
        }
    }

    /// The buffered messages of `origin`, oldest first.
    pub open spec fn messages(self, origin: OriginView) -> Seq<SignedMessageView> {
        if self.has_lane(origin) {
            self.lanes[self.lane_index(origin)].messages
        } else {
            Seq::empty()
        }
    }

    /// All buffered messages, origin after origin.
    pub open spec fn all_messages(self) -> Seq<SignedMessageView> {
        concat_lanes(self.lanes)
    }

    /// The queue once it knows `origin`.
    pub open spec fn register(self, origin: OriginView) -> SendQueueView {
        if self.has_lane(origin) {
            self
        } else {
            SendQueueView {
                lanes: self.lanes.push(
                    LaneView { origin, next_sequence: 0, messages: Seq::empty() },
                ),
            }
        }
    }

    /// The queue after `message` was sent with `signature`.
    pub open spec fn enqueue(self, message: MessageView, signature: Seq<u8>) -> SendQueueView {
        let known = self.register(message.sender);
        let i = known.lane_index(message.sender);
        SendQueueView { lanes: known.lanes.update(i, known.lanes[i].push(message, signature)) }
    }

    /// The queue after `sends` were made, first to last.
    pub open spec fn send_all(self, sends: Seq<SendView>) -> SendQueueView
        decreases sends.len(),
    {
        if sends.len() == 0 {
            self
        } else {
            self.send_all(sends.drop_last()).enqueue(sends.last().message, sends.last().signature)
        }
    }

    /// The queue after the messages of `origin` below `threshold` were dropped.
    pub open spec fn purge_below(self, origin: OriginView, threshold: nat) -> SendQueueView {
        if self.has_lane(origin) {
            let i = self.lane_index(origin);
            SendQueueView { lanes: self.lanes.update(i, self.lanes[i].purge(threshold)) }
        } else {
            self
        }
    }

    /// The queue after each origin's messages below its threshold were dropped.
    pub open spec fn purge(self, threshold: spec_fn(OriginView) -> u64) -> SendQueueView {
        SendQueueView {
            lanes: Seq::new(
                self.lanes.len(),
                |i: int| self.lanes[i].purge(threshold(self.lanes[i].origin) as nat),
            ),
        }
    }
}

/// In a well-formed queue the lane of an origin is the only one.
pub proof fn lemma_lane_index(queue: SendQueueView, i: int, origin: OriginView)
    requires
        queue.wf(),
        queue.is_lane_of(i, origin),
    ensures
        queue.has_lane(origin),
        queue.lane_index(origin) == i,
{
    let j = queue.lane_index(origin);
    assert(queue.is_lane_of(j, origin));
    if i < j {
        assert(queue.lanes[i].origin != queue.lanes[j].origin);
    } else if j < i {
        assert(queue.lanes[j].origin != queue.lanes[i].origin);
    }
}

/// Registering an origin changes no origin's next number and no origin's
/// messages: a new origin starts at 0 with nothing buffered.
pub proof fn lemma_register_keeps(queue: SendQueueView, origin: OriginView)
    requires
        queue.wf(),
    ensures
        queue.register(origin).wf(),
        queue.register(origin).has_lane(origin),
        forall|any: OriginView|
            #[trigger] queue.register(origin).next_sequence(any) == queue.next_sequence(any),
        forall|any: OriginView|
            #[trigger] queue.register(origin).messages(any) == queue.messages(any),
{
    let known = queue.register(origin);
    if !queue.has_lane(origin) {
        let i = queue.lanes.len() as int;
        assert forall|a: int, b: int| 0 <= a < b < known.lanes.len() implies known.lanes[a].origin
            != known.lanes[b].origin by {
            if b == i {
                assert(!queue.is_lane_of(a, origin));
            }
        }
        assert(known.is_lane_of(i, origin));
        lemma_lane_index(known, i, origin);
        assert forall|any: OriginView|
            known.next_sequence(any) == queue.next_sequence(any) && known.messages(any)
                == queue.messages(any) by {
            if queue.has_lane(any) {
                let j = queue.lane_index(any);
                assert(known.is_lane_of(j, any));
                lemma_lane_index(known, j, any);
            } else if any != origin {
                assert forall|j: int| !known.is_lane_of(j, any) by {
                    if known.is_lane_of(j, any) {
                        assert(queue.is_lane_of(j, any));
                    }
                }
            }
        }
    }
}

/// Pushing a message onto a lane of a well-formed queue keeps it well-formed.
pub proof fn lemma_push_keeps_wf(
    queue: SendQueueView,
    i: int,
    message: MessageView,
    signature: Seq<u8>,
)
    requires
        queue.wf(),
        0 <= i < queue.lanes.len(),
        queue.lanes[i].origin == message.sender,
    ensures
        (SendQueueView {
            lanes: queue.lanes.update(i, queue.lanes[i].push(message, signature)),
        }).wf(),
{
    let after = SendQueueView {
        lanes: queue.lanes.update(i, queue.lanes[i].push(message, signature)),
    };
    assert forall|k: int| 0 <= k < after.lanes.len() implies (#[trigger] after.lanes[k]).wf() by {
        assert(queue.lanes[k].wf());
    }
    assert forall|a: int, b: int| 0 <= a < b < after.lanes.len() implies after.lanes[a].origin
        != after.lanes[b].origin by {
        assert(queue.lanes[a].origin != queue.lanes[b].origin);
    }
}

/// Where the numbers ascend, the messages at or above a threshold are a tail.
pub proof fn lemma_filter_is_suffix(messages: Seq<SignedMessageView>, cut: int, threshold: nat)
    requires
        0 <= cut <= messages.len(),
        forall|k: int| 0 <= k < cut ==> messages[k].sequence < threshold,
        forall|k: int| cut <= k < messages.len() ==> messages[k].sequence >= threshold,
    ensures
        messages.filter(at_least(threshold)) == messages.subrange(cut, messages.len() as int),
    decreases messages.len(),
{
    reveal(Seq::filter);
    if messages.len() > 0 {
        let front = messages.drop_last();
        if cut == messages.len() {
            lemma_filter_is_suffix(front, cut - 1, threshold);
            assert(!at_least(threshold)(messages.last()));
            assert(messages.filter(at_least(threshold)) =~= messages.subrange(
                cut,
                messages.len() as int,
            ));
        } else {
            lemma_filter_is_suffix(front, cut, threshold);
            assert(at_least(threshold)(messages.last()));
            assert(messages.filter(at_least(threshold)) =~= messages.subrange(
                cut,
                messages.len() as int,
            ));
        }
    } else {
        assert(messages.filter(at_least(threshold)) =~= messages.subrange(
            cut,
            messages.len() as int,
        ));
    }
}

/// A send numbers its message with the sender's next number and appends it
/// to the sender's messages; no other origin's numbers or messages change.
pub proof fn lemma_enqueue_touches_its_sender_only(
    queue: SendQueueView,
    message: MessageView,
    signature: Seq<u8>,
)
    requires
        queue.wf(),
    ensures
        queue.enqueue(message, signature).wf(),
        queue.enqueue(message, signature).messages(message.sender) == queue.messages(
            message.sender,
        ).push(
            SignedMessageView {
                message,
                sequence: queue.next_sequence(message.sender),
                signature,
            },
        ),
        queue.enqueue(message, signature).next_sequence(message.sender) == queue.next_sequence(
            message.sender,
        ) + 1,
        forall|other: OriginView|
            other != message.sender ==> #[trigger] queue.enqueue(message, signature).next_sequence(
                other,
            ) == queue.next_sequence(other),
        forall|other: OriginView|
            other != message.sender ==> #[trigger] queue.enqueue(message, signature).messages(other)
                == queue.messages(other),
{
    let sender = message.sender;
    let known = queue.register(sender);
    let after = queue.enqueue(message, signature);
    lemma_register_keeps(queue, sender);
    let i = known.lane_index(sender);
    assert(known.is_lane_of(i, sender));
    lemma_push_keeps_wf(known, i, message, signature);
    assert(after.is_lane_of(i, sender));
    lemma_lane_index(after, i, sender);
    assert(known.next_sequence(sender) == queue.next_sequence(sender));
    assert(known.messages(sender) == queue.messages(sender));
    assert forall|other: OriginView| other != sender implies after.next_sequence(other)
        == queue.next_sequence(other) && after.messages(other) == queue.messages(other) by {
        assert(known.next_sequence(other) == queue.next_sequence(other));
        assert(known.messages(other) == queue.messages(other));
        if known.has_lane(other) {
            let j = known.lane_index(other);
            assert(known.is_lane_of(j, other));
            assert(after.is_lane_of(j, other));
            lemma_lane_index(after, j, other);
        } else {
            assert forall|j: int| !after.is_lane_of(j, other) by {
                if after.is_lane_of(j, other) {
                    assert(known.is_lane_of(j, other));
                }
            }
        }
    }
}

/// One send, as the queue sees it: the message and its signature.
pub struct SendView {
    pub message: MessageView,
    pub signature: Seq<u8>,
}

/// The test that a send is one of `origin`.
pub open spec fn sent_by(origin: OriginView) -> spec_fn(SendView) -> bool {
    |send: SendView| send.message.sender == origin
}

/// The sends, numbered from `first` on in their order.
pub open spec fn numbered(sends: Seq<SendView>, first: nat) -> Seq<SignedMessageView> {
    Seq::new(
        sends.len(),
        |k: int|
            SignedMessageView {
                message: sends[k].message,
                sequence: first + k as nat,
                signature: sends[k].signature,
            },
    )
}

/// Whatever the sends of other origins that come in between, and through
/// whichever channels: the sends of one origin are appended to its messages
/// in the order in which they were made, numbered from the origin's next
/// number upwards without a gap or a repeat.
pub proof fn lemma_sends_are_numbered_in_order(
    queue: SendQueueView,
    sends: Seq<SendView>,
    origin: OriginView,
)
    requires
        queue.wf(),
    ensures
        queue.send_all(sends).wf(),
        queue.send_all(sends).messages(origin) == queue.messages(origin) + numbered(
            sends.filter(sent_by(origin)),
            queue.next_sequence(origin),
        ),
        queue.send_all(sends).next_sequence(origin) == queue.next_sequence(origin) + sends.filter(
            sent_by(origin),
        ).len(),
    decreases sends.len(),
{
    reveal(Seq::filter);
    let first = queue.next_sequence(origin);
    if sends.len() == 0 {
        assert(queue.messages(origin) + numbered(sends.filter(sent_by(origin)), first)
            =~= queue.messages(origin));
    } else {
        let front = sends.drop_last();
        let last = sends.last();
        let before = queue.send_all(front);
        lemma_sends_are_numbered_in_order(queue, front, origin);
        lemma_enqueue_touches_its_sender_only(before, last.message, last.signature);
        let own_front = front.filter(sent_by(origin));
        let own = sends.filter(sent_by(origin));
        if last.message.sender == origin {
            assert(own == own_front.push(last));
            assert(queue.messages(origin) + numbered(own, first) =~= (queue.messages(origin)
                + numbered(own_front, first)).push(
                SignedMessageView {
                    message: last.message,
                    sequence: first + own_front.len(),
                    signature: last.signature,
                },
            ));
        } else {
            assert(own == own_front);
        }
    }
}

/// In a queue that started empty, the messages of an origin are numbered
/// 0, 1, 2, and so on, in the order of its sends.
pub proof fn lemma_sends_are_numbered_from_zero(sends: Seq<SendView>, origin: OriginView)
    ensures
        SendQueueView::empty().send_all(sends).messages(origin) == numbered(
            sends.filter(sent_by(origin)),
            0,
        ),
        SendQueueView::empty().send_all(sends).next_sequence(origin) == sends.filter(
            sent_by(origin),
        ).len(),
{
    let start = SendQueueView::empty();
    assert(!start.has_lane(origin));
    lemma_sends_are_numbered_in_order(start, sends, origin);
    assert(start.messages(origin) + numbered(sends.filter(sent_by(origin)), 0) =~= numbered(
        sends.filter(sent_by(origin)),
        0,
    ));
}

/// A filter applied twice keeps what it kept the first time.
pub proof fn lemma_filter_twice(messages: Seq<SignedMessageView>, threshold: nat)
    ensures
        messages.filter(at_least(threshold)).filter(at_least(threshold)) == messages.filter(
            at_least(threshold),
        ),
    decreases messages.len(),
{
    reveal(Seq::filter);
    if messages.len() > 0 {
        let front = messages.drop_last();
        lemma_filter_twice(front, threshold);
        if at_least(threshold)(messages.last()) {
            let kept = front.filter(at_least(threshold));
            assert(kept.push(messages.last()).drop_last() =~= kept);
        }
    }
}

/// After a purge, each origin has kept exactly its messages numbered at or
/// above its threshold, in their order, and its next number is unchanged.
pub proof fn lemma_purge_keeps_what_is_at_or_above(
    queue: SendQueueView,
    threshold: spec_fn(OriginView) -> u64,
    origin: OriginView,
)
    requires
        queue.wf(),
    ensures
        queue.purge(threshold).messages(origin) == queue.messages(origin).filter(
            at_least(threshold(origin) as nat),
        ),
        queue.purge(threshold).next_sequence(origin) == queue.next_sequence(origin),
{
    reveal(Seq::filter);
    let after = queue.purge(threshold);
    if queue.has_lane(origin) {
        let i = queue.lane_index(origin);
        assert(after.is_lane_of(i, origin));
        let j = after.lane_index(origin);
        assert(after.is_lane_of(j, origin));
        assert(queue.is_lane_of(j, origin));
        lemma_lane_index(queue, j, origin);
    } else {
        assert forall|j: int| !after.is_lane_of(j, origin) by {
            if after.is_lane_of(j, origin) {
                assert(queue.is_lane_of(j, origin));
            }
        }
        assert(Seq::<SignedMessageView>::empty().filter(at_least(threshold(origin) as nat))
            =~= Seq::<SignedMessageView>::empty());
    }
}

/// A purge keeps the queue well-formed: what an origin keeps is the tail of
/// what it had, so its numbers still run up to its next number without a gap.
pub proof fn lemma_purge_keeps_wf(queue: SendQueueView, threshold: spec_fn(OriginView) -> u64)
    requires
        queue.wf(),
    ensures
        queue.purge(threshold).wf(),
{
    let after = queue.purge(threshold);
    assert forall|i: int| 0 <= i < after.lanes.len() implies (#[trigger] after.lanes[i]).wf() by {
        let lane = queue.lanes[i];
        assert(lane.wf());
        let limit = threshold(lane.origin) as nat;
        let len = lane.messages.len() as int;
        let base = lane.next_sequence - len;
        let cut: int = if limit <= base {
            0
        } else if limit >= base + len {
            len
        } else {
            limit - base
        };
        lemma_filter_is_suffix(lane.messages, cut, limit);
        assert(after.lanes[i].messages == lane.messages.subrange(cut, len));
    }
    assert forall|a: int, b: int| 0 <= a < b < after.lanes.len() implies after.lanes[a].origin
        != after.lanes[b].origin by {
        assert(queue.lanes[a].origin != queue.lanes[b].origin);
    }
}

/// A second purge with the same thresholds changes nothing.
pub proof fn lemma_purge_again_changes_nothing(
    queue: SendQueueView,
    threshold: spec_fn(OriginView) -> u64,
)
    ensures
        queue.purge(threshold).purge(threshold) == queue.purge(threshold),
{
    let once = queue.purge(threshold);
    let twice = once.purge(threshold);
    assert forall|i: int| 0 <= i < once.lanes.len() implies twice.lanes[i] == once.lanes[i] by {
        lemma_filter_twice(queue.lanes[i].messages, threshold(queue.lanes[i].origin) as nat);
    }
    assert(twice.lanes =~= once.lanes);
}

/// The sequence numbers of a run of messages.
pub open spec fn sequence_numbers(messages: Seq<SignedMessageView>) -> Set<nat> {
    Set::new(
        |n: nat| exists|k: int| 0 <= k < messages.len() && #[trigger] messages[k].sequence == n,
    )
}

/// The test that a sequence number is at or above `threshold`.
pub open spec fn not_below(threshold: nat) -> spec_fn(nat) -> bool {
    |n: nat| n >= threshold
}

/// After a purge, the sequence numbers that an origin has buffered are those
/// it had buffered before that are at or above its threshold.
pub proof fn lemma_purge_keeps_the_numbers_at_or_above(
    queue: SendQueueView,
    threshold: spec_fn(OriginView) -> u64,
    origin: OriginView,
)
    requires
        queue.wf(),
    ensures
        sequence_numbers(queue.purge(threshold).messages(origin)) == sequence_numbers(
            queue.messages(origin),
        ).filter(not_below(threshold(origin) as nat)),
{
    lemma_purge_keeps_what_is_at_or_above(queue, threshold, origin);
    let before = queue.messages(origin);
    let after = queue.purge(threshold).messages(origin);
    let limit = threshold(origin) as nat;
    let len = before.len() as int;
    if queue.has_lane(origin) {
        let lane = queue.lanes[queue.lane_index(origin)];
        assert(queue.is_lane_of(queue.lane_index(origin), origin));
        assert(lane.wf());
        let base = lane.next_sequence - len;
        let cut: int = if limit <= base {
            0
        } else if limit >= base + len {
            len
        } else {
            limit - base
        };
        lemma_filter_is_suffix(before, cut, limit);
        assert forall|n: nat|
            sequence_numbers(after).contains(n) == (sequence_numbers(before).contains(n) && n
                >= limit) by {
            if sequence_numbers(after).contains(n) {
                let k = choose|k: int| 0 <= k < after.len() && #[trigger] after[k].sequence == n;
                assert(before[cut + k].sequence == n);
            }
            if sequence_numbers(before).contains(n) && n >= limit {
                let k = choose|k: int| 0 <= k < before.len() && #[trigger] before[k].sequence == n;
                assert(after[k - cut].sequence == n);
            }
        }
    } else {
        lemma_filter_is_suffix(before, 0, limit);
    }
    assert(sequence_numbers(after) =~= sequence_numbers(before).filter(not_below(limit)));
}

} // verus!
