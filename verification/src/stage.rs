//! The life of a stage: it runs until something it cannot recover from stops
//! it, and once stopped it stays stopped.

use vstd::prelude::*;

verus! {

/// Why a stage stops for good.
#[derive(Clone, Copy, Debug, PartialEq, Eq, Hash, Structural)]
pub enum StopCause {
    /// The socket is closed or can no longer be used.
    SocketClosed,
    /// The other end of a queue is gone: the neighbouring stage has died.
    ChannelClosed,
    /// The queue to the next stage is full.
    ChannelFull,
    /// The stage was asked to stop.
    Shutdown,
}

impl StopCause {
    /// Whether the stage stopped because something broke: every cause but a
    /// request to stop. A stage that stops on a fault has failed, and the
    /// failure is for whoever started the stage to hear of.
    pub open spec fn is_fault_spec(self) -> bool {
        self != StopCause::Shutdown
    }

    /// Whether the stage stopped because something broke, not because it
    /// was asked to.
    pub fn is_fault(self) -> (fault: bool)
        ensures
            fault == self.is_fault_spec(),
    {
        match self {
            StopCause::Shutdown => false,
            StopCause::SocketClosed => true,
            StopCause::ChannelClosed => true,
            StopCause::ChannelFull => true,
        }
    }
}

/// What handling one item asks of the stage that handled it.
#[derive(Clone, Copy, Debug, PartialEq, Eq, Hash, Structural)]
pub enum Verdict {
    /// Go on with the next item. The item may have been dropped: a fault in
    /// one item is no fault of the stage.
    Continue,
    /// Stop: the stage has lost what it needs to work.
    Stop(StopCause),
}

/// Where a stage stands.
#[derive(Clone, Copy, Debug, PartialEq, Eq, Hash, Structural)]
pub enum StageState {
    /// The stage takes items.
    Running,
    /// The stage has stopped, for the cause given, and takes no more items.
    Terminated(StopCause),
}

impl StageState {
    /// The state that follows `self` when handling an item ended in
    /// `verdict`.
    pub open spec fn after(self, verdict: Verdict) -> StageState {
        match (self, verdict) {
            (StageState::Running, Verdict::Stop(cause)) => StageState::Terminated(cause),
            _ => self,
        }
    }

    /// The state a stage starts in.
    pub fn start() -> (state: StageState)
        ensures
            state == StageState::Running,
    {
        StageState::Running
    }

    /// Whether the stage takes items.
    pub fn is_running(&self) -> (running: bool)
        ensures
            running == (*self == StageState::Running),
    {
        match self {
            StageState::Running => true,
            StageState::Terminated(_) => false,
        }
    }

    /// Moves on by one verdict.
    ///
    /// A running stage keeps running on `Continue` and stops on `Stop`, with
    /// the cause of the verdict. A stopped stage stays as it is.
    pub fn advance(self, verdict: Verdict) -> (next: StageState)
        ensures
            next == self.after(verdict),
            self is Terminated ==> next == self,
            next is Terminated <==> self is Terminated || verdict is Stop,
    {
        match self {
            StageState::Running => match verdict {
                Verdict::Continue => StageState::Running,
                Verdict::Stop(cause) => StageState::Terminated(cause),
            },
            StageState::Terminated(cause) => StageState::Terminated(cause),
        }
    }
}

/// The state of a stage that started in `state` and then met `verdicts`, one
/// after the other.
pub open spec fn after_all(state: StageState, verdicts: Seq<Verdict>) -> StageState
    decreases verdicts.len(),
{
    if verdicts.len() == 0 {
        state
    } else {
        after_all(state, verdicts.drop_last()).after(verdicts.last())
    }
}

/// A stage stops only on a verdict that says so: whatever the number of
/// items, as long as every verdict is `Continue` a running stage is still
/// running.
pub proof fn lemma_continue_keeps_running(verdicts: Seq<Verdict>)
    requires
        forall|i: int| 0 <= i < verdicts.len() ==> verdicts[i] == Verdict::Continue,
    ensures
        after_all(StageState::Running, verdicts) == StageState::Running,
    decreases verdicts.len(),
{
    if verdicts.len() > 0 {
        lemma_continue_keeps_running(verdicts.drop_last());
    }
}

/// Stopping is final: a stopped stage is in the same state after any further
/// verdicts.
pub proof fn lemma_terminated_is_final(cause: StopCause, verdicts: Seq<Verdict>)
    ensures
        after_all(StageState::Terminated(cause), verdicts) == StageState::Terminated(cause),
    decreases verdicts.len(),
{
    if verdicts.len() > 0 {
        lemma_terminated_is_final(cause, verdicts.drop_last());
    }
}

} // verus!
