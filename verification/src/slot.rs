//! The lifecycle of the wrapped `dsh web` child process.
//!
//! The shell keeps one [`ChildSlot`] behind a lock. Each function here is what
//! one thread does to it while it holds the lock; between two of them other
//! threads can hold it. Whoever is told to wait sleeps until the slot changes
//! and then asks again.
use vstd::prelude::*;

verus! {

/// The wrapped child process, tracked so that a shutdown request that races
/// with the spawn, or with a termination under way, cannot leak it.
pub enum ChildSlot<C> {
    /// The spawn has not returned yet.
    Pending,
    /// The child is running.
    Running(C),
    /// One caller has taken the child and is terminating it.
    Stopping,
    /// The child is gone, or there never was one.
    Stopped,
}

/// What became of a spawn's outcome.
pub struct SpawnRecord<C> {
    /// Whether the slot took the outcome.
    pub accepted: bool,
    /// The child that the slot did not take: the caller must terminate it.
    pub leftover: Option<C>,
}

/// What a caller that wants the child gone must do next.
pub enum StopStep<C> {
    /// Terminate this child, then call [`finish_stop`].
    Terminate(C),
    /// Wait until the slot changes, then ask again.
    Wait,
    /// Nothing is left to do.
    Return,
}

impl<C> ChildSlot<C> {
    /// The slot once `child` was recorded as the outcome of a spawn.
    pub open spec fn recorded(self, child: Option<C>) -> ChildSlot<C> {
        match (self, child) {
            (ChildSlot::Pending, Some(child)) => ChildSlot::Running(child),
            (ChildSlot::Pending, None) => ChildSlot::Stopped,
            _ => self,
        }
    }

    /// The slot once a caller has begun to stop the child.
    pub open spec fn stop_begun(self) -> ChildSlot<C> {
        match self {
            ChildSlot::Running(_) => ChildSlot::Stopping,
            _ => self,
        }
    }

    /// What a caller that stops a running child must do.
    pub open spec fn stop_step(self) -> StopStep<C> {
        match self {
            ChildSlot::Running(child) => StopStep::Terminate(child),
            ChildSlot::Stopping => StopStep::Wait,
            ChildSlot::Pending => StopStep::Return,
            ChildSlot::Stopped => StopStep::Return,
        }
    }

    /// What a caller that shuts the shell down must do: as for a stop, but a
    /// spawn still under way is waited for.
    pub open spec fn shutdown_step(self) -> StopStep<C> {
        match self {
            ChildSlot::Pending => StopStep::Wait,
            _ => self.stop_step(),
        }
    }
}

/// Records the outcome of the spawn: `Some(child)`, or `None` if it failed.
/// A slot that is no longer pending keeps what it has and hands the child
/// back.
pub fn record_spawn_outcome<C>(slot: &mut ChildSlot<C>, child: Option<C>) -> (record: SpawnRecord<C>)
    ensures
        *final(slot) == old(slot).recorded(child),
        record.accepted == (*old(slot) is Pending),
        record.leftover == if *old(slot) is Pending {
            None
        } else {
            child
        },
{
    let pending: bool = match slot {
        ChildSlot::Pending => true,
        _ => false,
    };
    if pending {
        match child {
            Some(child) => {
                *slot = ChildSlot::Running(child);
            },
            None => {
                *slot = ChildSlot::Stopped;
            },
        }
        SpawnRecord { accepted: true, leftover: None }
    } else {
        SpawnRecord { accepted: false, leftover: child }
    }
}

/// Begins to stop a running child. The slot is held at `Stopping` until the
/// caller that took the child has finished, so that no other caller can
/// return in the meantime as if nothing were left to do.
pub fn stop_running_child<C>(slot: &mut ChildSlot<C>) -> (step: StopStep<C>)
    ensures
        *final(slot) == old(slot).stop_begun(),
        step == old(slot).stop_step(),
{
    let mut previous: ChildSlot<C> = ChildSlot::Stopping;
    std::mem::swap(slot, &mut previous);
    match previous {
        ChildSlot::Running(child) => StopStep::Terminate(child),
        ChildSlot::Stopping => StopStep::Wait,
        ChildSlot::Pending => {
            *slot = ChildSlot::Pending;
            StopStep::Return
        },
        ChildSlot::Stopped => {
            *slot = ChildSlot::Stopped;
            StopStep::Return
        },
    }
}

/// Notes that the caller that took the child has terminated it.
pub fn finish_stop<C>(slot: &mut ChildSlot<C>)
    ensures
        *final(slot) == ChildSlot::<C>::Stopped,
{
    *slot = ChildSlot::Stopped;
}

/// Shuts the child down on window close or exit. While the spawn is under way
/// the caller must wait, however long that takes: to return any earlier could
/// end the process before the child that is being spawned has an owner.
pub fn shutdown<C>(slot: &mut ChildSlot<C>) -> (step: StopStep<C>)
    ensures
        *final(slot) == old(slot).stop_begun(),
        step == old(slot).shutdown_step(),
{
    let pending: bool = match slot {
        ChildSlot::Pending => true,
        _ => false,
    };
    if pending {
        StopStep::Wait
    } else {
        stop_running_child(slot)
    }
}

/// What one thread can do to the slot while it holds the lock.
pub enum SlotOp<C> {
    /// [`record_spawn_outcome`].
    Record(Option<C>),
    /// [`stop_running_child`].
    Stop,
    /// [`shutdown`].
    Shutdown,
    /// [`finish_stop`], by a caller that was told to terminate a child.
    Finish,
}

/// The slot together with the children that are in some caller's hands.
pub struct Lifecycle<C> {
    /// The slot.
    pub slot: ChildSlot<C>,
    /// Children taken from the slot whose termination is under way.
    pub terminating: Seq<C>,
    /// Children taken from the slot and terminated.
    pub terminated: Seq<C>,
    /// Children that the slot did not take.
    pub refused: Seq<C>,
}

impl<C> Lifecycle<C> {
    /// Before anything has happened.
    pub open spec fn init() -> Lifecycle<C> {
        Lifecycle {
            slot: ChildSlot::Pending,
            terminating: seq![],
            terminated: seq![],
            refused: seq![],
        }
    }

    /// Whether `op` can happen: only a caller that holds a child to terminate
    /// can finish.
    pub open spec fn allows(self, op: SlotOp<C>) -> bool {
        op is Finish ==> self.terminating.len() > 0
    }

    /// After `op`.
    pub open spec fn after(self, op: SlotOp<C>) -> Lifecycle<C> {
        match op {
            SlotOp::Record(child) => Lifecycle {
                slot: self.slot.recorded(child),
                refused: if !(self.slot is Pending) && child is Some {
                    self.refused.push(child->0)
                } else {
                    self.refused
                },
                ..self
            },
            SlotOp::Stop => Lifecycle {
                slot: self.slot.stop_begun(),
                terminating: match self.slot.stop_step() {
                    StopStep::Terminate(child) => self.terminating.push(child),
                    _ => self.terminating,
                },
                ..self
            },
            SlotOp::Shutdown => Lifecycle {
                slot: self.slot.stop_begun(),
                terminating: match self.slot.shutdown_step() {
                    StopStep::Terminate(child) => self.terminating.push(child),
                    _ => self.terminating,
                },
                ..self
            },
            SlotOp::Finish => Lifecycle {
                slot: ChildSlot::Stopped,
                terminating: self.terminating.drop_last(),
                terminated: self.terminated.push(self.terminating.last()),
                ..self
            },
        }
    }
}

/// Where the history `ops`, of any number of threads in any order, leads.
pub open spec fn lifecycle<C>(ops: Seq<SlotOp<C>>) -> Lifecycle<C>
    decreases ops.len(),
{
    if ops.len() == 0 {
        Lifecycle::init()
    } else {
        lifecycle(ops.drop_last()).after(ops.last())
    }
}

/// Whether the history `ops` can happen.
pub open spec fn can_happen<C>(ops: Seq<SlotOp<C>>) -> bool
    decreases ops.len(),
{
    ops.len() == 0 || (can_happen(ops.drop_last()) && lifecycle(ops.drop_last()).allows(ops.last()))
}

/// The first spawn outcome that `ops` record, if they record any.
pub open spec fn first_outcome<C>(ops: Seq<SlotOp<C>>) -> Option<Option<C>>
    decreases ops.len(),
{
    if ops.len() == 0 {
        None
    } else {
        match (first_outcome(ops.drop_last()), ops.last()) {
            (None, SlotOp::Record(child)) => Some(child),
            (earlier, _) => earlier,
        }
    }
}

/// The children that `ops` record after the first outcome.
pub open spec fn later_children<C>(ops: Seq<SlotOp<C>>) -> Seq<C>
    decreases ops.len(),
{
    if ops.len() == 0 {
        seq![]
    } else {
        let earlier = later_children(ops.drop_last());
        match ops.last() {
            SlotOp::Record(Some(child)) if first_outcome(ops.drop_last()) is Some => earlier.push(
                child,
            ),
            _ => earlier,
        }
    }
}

/// No child is lost and none is terminated twice, however the threads
/// interleave: the child of the first outcome is running in the slot, in the
/// hands of exactly one caller that is terminating it, or terminated once;
/// every later child was handed back.
pub proof fn law_every_child_is_accounted_for<C>(ops: Seq<SlotOp<C>>)
    requires
        can_happen(ops),
    ensures
        ({
            let now = lifecycle(ops);
            &&& now.refused == later_children(ops)
            &&& match first_outcome(ops) {
                None => now.slot is Pending && now.terminating.len() == 0 && now.terminated.len()
                    == 0,
                Some(None) => now.slot is Stopped && now.terminating.len() == 0
                    && now.terminated.len() == 0,
                Some(Some(child)) => {
                    ||| now.slot == ChildSlot::Running(child) && now.terminating.len() == 0
                        && now.terminated.len() == 0
                    ||| now.slot is Stopping && now.terminating == seq![child]
                        && now.terminated.len() == 0
                    ||| now.slot is Stopped && now.terminating.len() == 0 && now.terminated
                        == seq![child]
                },
            }
        }),
    decreases ops.len(),
{
    if ops.len() > 0 {
        law_every_child_is_accounted_for(ops.drop_last());
        let now = lifecycle(ops);
        if let Some(Some(child)) = first_outcome(ops) {
            if now.slot is Stopping {
                assert(now.terminating =~= seq![child]);
            }
            if now.slot is Stopped {
                assert(now.terminated =~= seq![child]);
            }
        }
    }
}

/// A shutdown returns only once nothing can be left running: the spawn has had
/// its outcome, and the child that came of it, if any, is terminated.
pub proof fn law_shutdown_leaves_no_child<C>(ops: Seq<SlotOp<C>>)
    requires
        can_happen(ops),
        lifecycle(ops).slot.shutdown_step() is Return,
    ensures
        first_outcome(ops) is Some,
        lifecycle(ops).terminating.len() == 0,
        first_outcome(ops)->0 matches Some(child) ==> lifecycle(ops).terminated == seq![child],
{
    law_every_child_is_accounted_for(ops);
}

/// Whoever waits waits for something that is under way: the spawn, whose
/// outcome is still to be recorded, or the one caller that is terminating the
/// child.
pub proof fn law_wait_is_for_something_under_way<C>(ops: Seq<SlotOp<C>>)
    requires
        can_happen(ops),
        lifecycle(ops).slot.shutdown_step() is Wait,
    ensures
        first_outcome(ops) is None || lifecycle(ops).terminating.len() == 1,
        lifecycle(ops).slot.stop_step() is Wait ==> lifecycle(ops).terminating.len() == 1,
{
    law_every_child_is_accounted_for(ops);
}

/// The first spawn outcome is always taken, whatever stops and shutdowns came
/// before it.
pub proof fn law_first_outcome_is_accepted<C>(ops: Seq<SlotOp<C>>)
    requires
        can_happen(ops),
        first_outcome(ops) is None,
    ensures
        lifecycle(ops).slot is Pending,
{
    law_every_child_is_accounted_for(ops);
}

/// A stopped slot stays stopped.
pub proof fn law_stopped_is_final<C>(ops: Seq<SlotOp<C>>, op: SlotOp<C>)
    requires
        can_happen(ops.push(op)),
        lifecycle(ops).slot is Stopped,
    ensures
        lifecycle(ops.push(op)).slot is Stopped,
{
    assert(ops.push(op).drop_last() =~= ops);
}

/// What a caller is told follows from the history alone. Where the child of the
/// first outcome is running, the caller is handed that child to terminate;
/// where another caller is terminating it, the caller waits; where the spawn
/// has no outcome yet, a shutdown waits and a stop has nothing to do; and where
/// there was no child, or it is terminated, nothing is left to do.
pub proof fn law_caller_is_told_what_is_left_to_do<C>(ops: Seq<SlotOp<C>>)
    requires
        can_happen(ops),
    ensures
        ({
            let now = lifecycle(ops);
            let stop = now.slot.stop_step();
            let shutdown = now.slot.shutdown_step();
            match first_outcome(ops) {
                None => stop is Return && shutdown is Wait,
                Some(None) => stop is Return && shutdown is Return,
                Some(Some(child)) => stop == shutdown && if now.terminated.len() > 0 {
                    stop is Return
                } else if now.terminating.len() > 0 {
                    stop is Wait
                } else {
                    stop == StopStep::Terminate(child)
                },
            }
        }),
{
    law_every_child_is_accounted_for(ops);
}

/// To begin to stop takes a running child out of the slot, so that no other
/// caller can take it, and changes nothing else.
pub proof fn law_begun_stop_takes_the_child<C>(slot: ChildSlot<C>)
    ensures
        slot is Running ==> slot.stop_begun() is Stopping && slot.stop_step() == StopStep::Terminate(
            slot->Running_0,
        ),
        !(slot is Running) ==> slot.stop_begun() == slot && !(slot.stop_step() is Terminate),
{
}

} // verus!
