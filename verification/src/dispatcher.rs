//! The inbound side: handlers subscribe to exact topics, and every dispatched
//! message is copied to each live subscription on its destination, in the
//! order in which the subscriptions were made.

use vstd::prelude::*;
use crate::types::{Message, MessageView, Path};

verus! {

/// What the dispatcher holds for one subscription.
pub struct SubscriptionView {
    pub path: Seq<u8>,
    /// Whether the subscription still receives messages.
    pub live: bool,
    /// The messages delivered and not yet drained, oldest first.
    pub pending: Seq<MessageView>,
}

impl SubscriptionView {
    /// Whether a message to `destination` is delivered to this subscription.
    pub open spec fn listens_to(self, destination: Seq<u8>) -> bool {
        self.live && self.path == destination
    }

    /// The subscription after `message` was dispatched.
    pub open spec fn deliver(self, message: MessageView) -> SubscriptionView {
        if self.listens_to(message.destination) {
            SubscriptionView {
                path: self.path,
                live: self.live,
                pending: self.pending.push(message),
            }
        } else {
            self
        }
    }

    /// The subscription with nothing pending.
    pub open spec fn emptied(self) -> SubscriptionView {
        SubscriptionView { path: self.path, live: self.live, pending: Seq::empty() }
    }

    /// The subscription once it was given up.
    pub open spec fn closed(self) -> SubscriptionView {
        SubscriptionView { path: self.path, live: false, pending: Seq::empty() }
    }
}

/// The test that a subscription listens to `destination`.
pub open spec fn listening(destination: Seq<u8>) -> spec_fn(SubscriptionView) -> bool {
    |subscription: SubscriptionView| subscription.listens_to(destination)
}

/// The test that a message goes to `path`.
pub open spec fn addressed_to(path: Seq<u8>) -> spec_fn(MessageView) -> bool {
    |message: MessageView| message.destination == path
}

/// What a [`MessageDispatcher`] is: its subscriptions, in the order in which
/// they were made. A receiver is known by its place in that order.
pub struct DispatcherView {
    pub subscriptions: Seq<SubscriptionView>,
}

impl DispatcherView {
    pub open spec fn empty() -> DispatcherView {
        DispatcherView { subscriptions: Seq::empty() }
    }

    /// Whether `receiver` is a receiver of this dispatcher.
    pub open spec fn knows(self, receiver: int) -> bool {
        0 <= receiver < self.subscriptions.len()
    }

    /// How many live subscriptions a message to `destination` reaches.
    pub open spec fn subscribers(self, destination: Seq<u8>) -> nat {
        self.subscriptions.filter(listening(destination)).len()
    }

    /// What `receiver` would get from a drain now.
    pub open spec fn pending(self, receiver: int) -> Seq<MessageView> {
        if self.knows(receiver) {
            self.subscriptions[receiver].pending
        } else {
            Seq::empty()
        }
    }

    /// The dispatcher with one more subscription, on `path`.
    pub open spec fn subscribe(self, path: Seq<u8>) -> DispatcherView {
        DispatcherView {
            subscriptions: self.subscriptions.push(
                SubscriptionView { path, live: true, pending: Seq::empty() },
            ),
        }
    }

    /// The dispatcher after `message` was dispatched.
    pub open spec fn dispatch(self, message: MessageView) -> DispatcherView {
        DispatcherView {
            subscriptions: Seq::new(
                self.subscriptions.len(),
                |i: int| self.subscriptions[i].deliver(message),
            ),
        }
    }

    /// The dispatcher after `messages` were dispatched, first to last.
    pub open spec fn dispatch_all(self, messages: Seq<MessageView>) -> DispatcherView
        decreases messages.len(),
    {
        if messages.len() == 0 {
            self
        } else {
            self.dispatch_all(messages.drop_last()).dispatch(messages.last())
        }
    }

    /// The dispatcher after `receiver` drained.
    pub open spec fn drain(self, receiver: int) -> DispatcherView {
        if self.knows(receiver) {
            DispatcherView {
                subscriptions: self.subscriptions.update(
                    receiver,
                    self.subscriptions[receiver].emptied(),
                ),
            }
        } else {
            self
        }
    }

    /// The dispatcher after `receiver` was given up.
    pub open spec fn unsubscribe(self, receiver: int) -> DispatcherView {
        if self.knows(receiver) {
            DispatcherView {
                subscriptions: self.subscriptions.update(
                    receiver,
                    self.subscriptions[receiver].closed(),
                ),
            }
        } else {
            self
        }
    }
}

/// A dispatch appends the message to what is pending for each receiver that
/// is live on exactly the message's destination, and to no other: a receiver
/// on another path keeps what it had.
pub proof fn lemma_dispatch_reaches_the_listeners_only(
    dispatcher: DispatcherView,
    message: MessageView,
    receiver: int,
)
    ensures
        dispatcher.dispatch(message).knows(receiver) == dispatcher.knows(receiver),
        dispatcher.knows(receiver) && dispatcher.subscriptions[receiver].listens_to(
            message.destination,
        ) ==> dispatcher.dispatch(message).pending(receiver) == dispatcher.pending(receiver).push(
            message,
        ),
        !(dispatcher.knows(receiver) && dispatcher.subscriptions[receiver].listens_to(
            message.destination,
        )) ==> dispatcher.dispatch(message).pending(receiver) == dispatcher.pending(receiver),
{
}

/// A receiver that saw a run of dispatches has pending, after what it had
/// before, the messages of the run that went to its path, in the order of
/// the dispatches. The dispatches change neither its path nor whether it is
/// live.
pub proof fn lemma_pending_is_first_in_first_out(
    dispatcher: DispatcherView,
    receiver: int,
    messages: Seq<MessageView>,
)
    requires
        dispatcher.knows(receiver),
        dispatcher.subscriptions[receiver].live,
    ensures
        dispatcher.dispatch_all(messages).knows(receiver),
        dispatcher.dispatch_all(messages).subscriptions[receiver].path
            == dispatcher.subscriptions[receiver].path,
        dispatcher.dispatch_all(messages).subscriptions[receiver].live,
        dispatcher.dispatch_all(messages).pending(receiver) == dispatcher.pending(receiver)
            + messages.filter(addressed_to(dispatcher.subscriptions[receiver].path)),
    decreases messages.len(),
{
    reveal(Seq::filter);
    let path = dispatcher.subscriptions[receiver].path;
    if messages.len() == 0 {
        assert(dispatcher.pending(receiver) + messages.filter(addressed_to(path))
            =~= dispatcher.pending(receiver));
    } else {
        let front = messages.drop_last();
        let last = messages.last();
        lemma_pending_is_first_in_first_out(dispatcher, receiver, front);
        let before = dispatcher.dispatch_all(front);
        lemma_dispatch_reaches_the_listeners_only(before, last, receiver);
        if last.destination == path {
            assert(dispatcher.pending(receiver) + messages.filter(addressed_to(path)) =~= (
            dispatcher.pending(receiver) + front.filter(addressed_to(path))).push(last));
        }
    }
}

/// A drain hands out what is pending and leaves nothing pending, so that a
/// second drain with no dispatch in between gets nothing and changes nothing.
/// No other receiver is touched.
pub proof fn lemma_drain_empties(dispatcher: DispatcherView, receiver: int)
    ensures
        dispatcher.drain(receiver).pending(receiver) == Seq::<MessageView>::empty(),
        dispatcher.drain(receiver).drain(receiver) == dispatcher.drain(receiver),
        forall|other: int|
            other != receiver ==> #[trigger] dispatcher.drain(receiver).pending(other)
                == dispatcher.pending(other),
{
    let once = dispatcher.drain(receiver);
    assert(once.drain(receiver).subscriptions =~= once.subscriptions);
}

/// A drain with nothing pending changes nothing.
pub proof fn lemma_empty_drain_changes_nothing(dispatcher: DispatcherView, receiver: int)
    requires
        dispatcher.pending(receiver).len() == 0,
    ensures
        dispatcher.drain(receiver) == dispatcher,
{
    if dispatcher.knows(receiver) {
        assert(dispatcher.subscriptions[receiver].pending =~= Seq::empty());
        assert(dispatcher.drain(receiver).subscriptions =~= dispatcher.subscriptions);
    }
}

/// The views of a run of messages.
pub open spec fn message_views(messages: Seq<Message>) -> Seq<MessageView> {
    messages.map_values(|m: Message| m@)
}

struct Subscription {
    path: Path,
    live: bool,
    pending: Vec<Message>,
}

impl View for Subscription {
    type V = SubscriptionView;

    closed spec fn view(&self) -> SubscriptionView {
        SubscriptionView {
            path: self.path@,
            live: self.live,
            pending: message_views(self.pending@),
        }
    }
}

/// The inbound dispatcher.
pub struct MessageDispatcher {
    subscriptions: Vec<Subscription>,
}

impl View for MessageDispatcher {
    type V = DispatcherView;

    closed spec fn view(&self) -> DispatcherView {
        DispatcherView { subscriptions: self.subscriptions@.map_values(|s: Subscription| s@) }
    }
}

/// A consumer's handle on one subscription of the dispatcher that made it.
/// To another dispatcher it means nothing of use.
pub struct Receiver {
    id: usize,
}

impl View for Receiver {
    type V = int;

    /// The place of the subscription among those of its dispatcher.
    closed spec fn view(&self) -> int {
        self.id as int
    }
}

impl Default for MessageDispatcher {
    fn default() -> (dispatcher: MessageDispatcher)
        ensures
            dispatcher@ == DispatcherView::empty(),
    {
        MessageDispatcher::new()
    }
}

impl MessageDispatcher {
    /// A dispatcher without subscriptions.
    pub fn new() -> (dispatcher: MessageDispatcher)
        ensures
            dispatcher@ == DispatcherView::empty(),
    {
        let dispatcher = MessageDispatcher { subscriptions: Vec::new() };
        assert(dispatcher@.subscriptions =~= Seq::empty());
        dispatcher
    }

    /// Registers a new, empty subscription on `path`, whatever subscriptions
    /// the path already has.
    pub fn subscribe(&mut self, path: Vec<u8>) -> (receiver: Receiver)
        ensures
            final(self)@ == old(self)@.subscribe(path@),
            receiver@ == old(self)@.subscriptions.len(),
    {
        let id = self.subscriptions.len();
        self.subscriptions.push(
            Subscription { path: Path::new(path), live: true, pending: Vec::new() },
        );
        proof {
            assert(self.subscriptions@[id as int]@.pending =~= Seq::empty());
            assert(self@.subscriptions =~= old(self)@.subscribe(path@).subscriptions);
        }
        Receiver { id }
    }

    /// Gives up the subscription of `receiver`: it gets no more messages, and
    /// what was pending is dropped.
    pub fn unsubscribe(&mut self, receiver: Receiver)
        ensures
            final(self)@ == old(self)@.unsubscribe(receiver@),
    {
        let id = receiver.id;
        if id < self.subscriptions.len() {
            let subscription = &mut self.subscriptions[id];
            subscription.live = false;
            subscription.pending = Vec::new();
            proof {
                assert(self.subscriptions@[id as int]@.pending =~= Seq::empty());
                assert(self@.subscriptions =~= old(self)@.unsubscribe(receiver@).subscriptions);
            }
        }
    }

    /// Delivers a copy of `message` to every live subscription whose path
    /// equals its destination, in the order of subscription, and tells how
    /// many there were. A message that nobody listens to is dropped.
    pub fn dispatch(&mut self, message: Message) -> (count: usize)
        ensures
            count == old(self)@.subscribers(message@.destination),
            final(self)@ == old(self)@.dispatch(message@),
    {
        let ghost start = self@;
        let ghost listens = listening(message@.destination);
        let mut count: usize = 0;
        let mut i: usize = 0;
        proof {
            reveal(Seq::filter);
            assert(start.subscriptions.take(0) =~= Seq::empty());
        }
        while i < self.subscriptions.len()
            invariant
                i <= self.subscriptions.len(),
                self@.subscriptions.len() == start.subscriptions.len(),
                self.subscriptions@.len() == start.subscriptions.len(),
                listens == listening(message@.destination),
                count <= i,
                count == start.subscriptions.take(i as int).filter(listens).len(),
                forall|k: int|
                    0 <= k < i ==> (#[trigger] self@.subscriptions[k])
                        == start.subscriptions[k].deliver(message@),
                forall|k: int|
                    i <= k < self@.subscriptions.len() ==> (#[trigger] self@.subscriptions[k])
                        == start.subscriptions[k],
            decreases self.subscriptions.len() - i,
        {
            let ghost before = self@;
            let ghost stored = self.subscriptions@;
            assert(before.subscriptions[i as int] == start.subscriptions[i as int]);
            assert(before.subscriptions[i as int] == self.subscriptions@[i as int]@);
            let subscription = &mut self.subscriptions[i];
            let ghost pending = subscription.pending@;
            if subscription.live && subscription.path.matches(&message.destination) {
                subscription.pending.push(message.clone());
                count += 1;
                proof {
                    assert(message_views(subscription.pending@) =~= message_views(pending).push(
                        message@,
                    ));
                }
            }
            proof {
                let upto = start.subscriptions.take(i + 1);
                reveal(Seq::filter);
                assert(upto.drop_last() =~= start.subscriptions.take(i as int));
                assert(upto.last() == start.subscriptions[i as int]);
                assert(self@.subscriptions[i as int] == self.subscriptions@[i as int]@);
                assert(self@.subscriptions.len() == self.subscriptions@.len());
                assert forall|k: int| 0 <= k < self@.subscriptions.len() && k != i implies (
                #[trigger] self@.subscriptions[k]) == before.subscriptions[k] by {
                    assert(self.subscriptions@[k] == stored[k]);
                }
            }
            i += 1;
        }
        proof {
            assert(start.subscriptions.take(i as int) =~= start.subscriptions);
            assert(self@.subscriptions =~= start.dispatch(message@).subscriptions);
        }
        count
    }
}

impl Receiver {
    /// Removes and returns what is pending for this receiver, oldest first.
    /// With nothing pending the result is empty. A receiver of another
    /// dispatcher that this one does not know gets nothing.
    pub fn drain(&mut self, dispatcher: &mut MessageDispatcher) -> (messages: Vec<Message>)
        ensures
            message_views(messages@) == old(dispatcher)@.pending(old(self)@),
            final(dispatcher)@ == old(dispatcher)@.drain(old(self)@),
            final(dispatcher)@.pending(old(self)@).len() == 0,
            old(dispatcher)@.pending(old(self)@).len() == 0 ==> messages@.len() == 0
                && final(dispatcher)@ == old(dispatcher)@,
            final(self)@ == old(self)@,
    {
        proof {
            lemma_drain_empties(dispatcher@, self@);
            if dispatcher@.pending(self@).len() == 0 {
                lemma_empty_drain_changes_nothing(dispatcher@, self@);
            }
        }
        let mut messages: Vec<Message> = Vec::new();
        if self.id < dispatcher.subscriptions.len() {
            let subscription = &mut dispatcher.subscriptions[self.id];
            messages.append(&mut subscription.pending);
            proof {
                assert(messages@ =~= old(dispatcher).subscriptions@[self.id as int].pending@);
                assert(dispatcher.subscriptions@[self.id as int]@.pending =~= Seq::empty());
                assert(dispatcher@.subscriptions =~= old(dispatcher)@.drain(self@).subscriptions);
            }
        } else {
            assert(message_views(messages@) =~= Seq::empty());
        }
        messages
    }
}

} // verus!
