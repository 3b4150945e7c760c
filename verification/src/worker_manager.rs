//! The decisions of the worker manager: which workers it runs, and what it
//! does with each message of its main channel.

use vstd::prelude::*;
use crate::inventory::Worker;

verus! {

/// A message on the manager's main channel.
#[derive(Debug)]
pub enum WorkerManagerMessage {
    Okay,
    LifecycleManagerStarted,
    ShouldBreakMessageLoop,
    ShouldResetLifecycleManager,
    ShouldStartWorkerLifecycle(Worker),
}

/// What the message loop does with a message.
#[derive(Debug, PartialEq, Eq, Structural)]
pub enum LoopAction {
    /// Leave the loop.
    Break,
    /// Note that the lifecycle manager has started.
    NoteStarted,
    /// Ask for a reload.
    Reload,
    /// Answer the sender with `Okay`.
    AnswerOk,
    /// Go on with the next message.
    Skip,
}

/// What the message loop does with `message`.
pub open spec fn action_of(message: WorkerManagerMessage) -> LoopAction {
    match message {
        WorkerManagerMessage::ShouldBreakMessageLoop => LoopAction::Break,
        WorkerManagerMessage::LifecycleManagerStarted => LoopAction::NoteStarted,
        WorkerManagerMessage::ShouldResetLifecycleManager => LoopAction::Reload,
        WorkerManagerMessage::ShouldStartWorkerLifecycle(_) => LoopAction::AnswerOk,
        WorkerManagerMessage::Okay => LoopAction::Skip,
    }
}

/// Decides what the message loop does with `message`. A request to start a
/// worker must come with a way to answer: `can_answer` tells whether it does.
pub fn message_loop(message: &WorkerManagerMessage, can_answer: bool) -> (action: LoopAction)
    requires
        message is ShouldStartWorkerLifecycle ==> can_answer,
    ensures
        action == action_of(*message),
{
    match message {
        WorkerManagerMessage::ShouldBreakMessageLoop => LoopAction::Break,
        WorkerManagerMessage::LifecycleManagerStarted => LoopAction::NoteStarted,
        WorkerManagerMessage::ShouldResetLifecycleManager => LoopAction::Reload,
        WorkerManagerMessage::ShouldStartWorkerLifecycle(_) => LoopAction::AnswerOk,
        WorkerManagerMessage::Okay => LoopAction::Skip,
    }
}

/// The test that a worker is enabled.
pub open spec fn enabled() -> spec_fn(Worker) -> bool {
    |worker: Worker| worker.enabled
}

/// The workers to run: those of `workers` that are enabled, in their order.
pub fn enabled_workers(workers: Vec<Worker>) -> (running: Vec<Worker>)
    ensures
        running@ == workers@.filter(enabled()),
{
    let mut running: Vec<Worker> = Vec::new();
    let mut i: usize = 0;
    proof {
        reveal(Seq::filter);
        assert(workers@.take(0) =~= Seq::empty());
    }
    while i < workers.len()
        invariant
            i <= workers.len(),
            running@ == workers@.take(i as int).filter(enabled()),
        decreases workers.len() - i,
    {
        proof {
            reveal(Seq::filter);
            let upto = workers@.take(i + 1);
            assert(upto.drop_last() =~= workers@.take(i as int));
            assert(upto.last() == workers@[i as int]);
        }
        if workers[i].enabled {
            running.push(workers[i].clone());
        }
        i += 1;
    }
    assert(workers@.take(i as int) =~= workers@);
    running
}

} // verus!
