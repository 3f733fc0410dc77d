//! The shell's two bounded waits: for the announcement of a URL, and for a
//! child to exit.
//!
//! Times are in nanoseconds. A wait is driven by events: its loop reads the
//! clock, then does what the answer says and reports what came of it, until
//! the answer is the result.
use crate::terminate::ChildPoll;
use vstd::prelude::*;

verus! {

/// How long `dsh web` may take to announce its URL.
pub const READY_TIMEOUT_NANOS: u64 = 30_000_000_000;

/// How long at most the announcement is waited for before the child is looked
/// after.
pub const READY_POLL_NANOS: u64 = 200_000_000;

/// How long a wait for an exit sleeps between two polls.
pub const EXIT_POLL_NANOS: u64 = 100_000_000;

/// What happened during a wait for the announcement.
pub enum ReadyEvent {
    /// The clock was read: so much time has passed since the wait began.
    Clock(u128),
    /// The announcement came in.
    Announced(String),
    /// Stdout was closed: no announcement can come.
    Disconnected,
    /// Nothing came in in time; the child, if it is this wait's to look
    /// after, was polled.
    Silence(Option<ChildPoll>),
}

/// What a wait for the announcement does next.
pub enum ReadyAction {
    /// Read the clock.
    ReadClock,
    /// Wait for the announcement, for at most so long.
    Receive(u64),
    /// Return the URL, or that there is none.
    Return(Option<String>),
}

/// What [`ready_wait_step`] returns.
pub open spec fn ready_action(timeout: u64, event: ReadyEvent) -> ReadyAction {
    match event {
        ReadyEvent::Clock(elapsed) => if elapsed >= timeout {
            ReadyAction::Return(None)
        } else if timeout - elapsed < READY_POLL_NANOS {
            ReadyAction::Receive((timeout - elapsed) as u64)
        } else {
            ReadyAction::Receive(READY_POLL_NANOS)
        },
        ReadyEvent::Announced(url) => ReadyAction::Return(Some(url)),
        ReadyEvent::Disconnected => ReadyAction::Return(None),
        ReadyEvent::Silence(Some(ChildPoll::Exited)) => ReadyAction::Return(None),
        ReadyEvent::Silence(Some(ChildPoll::Failed)) => ReadyAction::Return(None),
        ReadyEvent::Silence(Some(ChildPoll::Running)) => ReadyAction::ReadClock,
        ReadyEvent::Silence(None) => ReadyAction::ReadClock,
    }
}

/// Goes on with a wait for the announcement that began with `timeout` to go.
pub fn ready_wait_step(timeout: u64, event: ReadyEvent) -> (action: ReadyAction)
    ensures
        action == ready_action(timeout, event),
{
    match event {
        ReadyEvent::Clock(elapsed) => {
            if elapsed >= timeout as u128 {
                ReadyAction::Return(None)
            } else {
                let remaining: u64 = timeout - elapsed as u64;
                if remaining < READY_POLL_NANOS {
                    ReadyAction::Receive(remaining)
                } else {
                    ReadyAction::Receive(READY_POLL_NANOS)
                }
            }
        },
        ReadyEvent::Announced(url) => ReadyAction::Return(Some(url)),
        ReadyEvent::Disconnected => ReadyAction::Return(None),
        ReadyEvent::Silence(Some(ChildPoll::Exited)) => ReadyAction::Return(None),
        ReadyEvent::Silence(Some(ChildPoll::Failed)) => ReadyAction::Return(None),
        ReadyEvent::Silence(Some(ChildPoll::Running)) => ReadyAction::ReadClock,
        ReadyEvent::Silence(None) => ReadyAction::ReadClock,
    }
}

/// What happened during a wait for an exit.
#[derive(Clone, Copy, Debug, PartialEq, Eq, Structural)]
pub enum ExitEvent {
    /// The clock was read: so much time has passed since the wait began.
    Clock(u128),
    /// The child was polled.
    Polled(ChildPoll),
    /// The sleep is over.
    Slept,
}

/// What a wait for an exit does next.
#[derive(Clone, Copy, Debug, PartialEq, Eq, Structural)]
pub enum ExitAction {
    /// Read the clock.
    ReadClock,
    /// Poll the child.
    TryWait,
    /// Sleep for so long.
    Sleep(u64),
    /// Return whether the child has exited.
    Return(bool),
}

/// What [`exit_wait_step`] returns.
pub open spec fn exit_action(timeout: u64, event: ExitEvent) -> ExitAction {
    match event {
        ExitEvent::Clock(elapsed) => if elapsed < timeout {
            ExitAction::TryWait
        } else {
            ExitAction::Return(false)
        },
        ExitEvent::Polled(ChildPoll::Exited) => ExitAction::Return(true),
        ExitEvent::Polled(_) => ExitAction::Sleep(EXIT_POLL_NANOS),
        ExitEvent::Slept => ExitAction::ReadClock,
    }
}

/// Goes on with a wait for an exit that began with `timeout` to go. The child
/// is polled, never killed; a poll that fails counts as one that found the
/// child running.
pub fn exit_wait_step(timeout: u64, event: ExitEvent) -> (action: ExitAction)
    ensures
        action == exit_action(timeout, event),
{
    match event {
        ExitEvent::Clock(elapsed) => if elapsed < timeout as u128 {
            ExitAction::TryWait
        } else {
            ExitAction::Return(false)
        },
        ExitEvent::Polled(ChildPoll::Exited) => ExitAction::Return(true),
        ExitEvent::Polled(_) => ExitAction::Sleep(EXIT_POLL_NANOS),
        ExitEvent::Slept => ExitAction::ReadClock,
    }
}

/// A wait for the announcement returns a URL only when that URL was
/// announced, and always then.
pub proof fn law_ready_wait_returns_what_was_announced(
    timeout: u64,
    event: ReadyEvent,
    url: String,
)
    ensures
        ready_action(timeout, event) == ReadyAction::Return(Some(url)) <==> event
            == ReadyEvent::Announced(url),
{
}

/// A wait for the announcement never waits past its deadline, nor longer than
/// [`READY_POLL_NANOS`] without looking after the child; and it does wait as
/// long as there is time left.
pub proof fn law_ready_wait_keeps_its_deadline(timeout: u64, elapsed: u128)
    ensures
        match ready_action(timeout, ReadyEvent::Clock(elapsed)) {
            ReadyAction::Receive(nanos) => 0 < nanos <= READY_POLL_NANOS && elapsed + nanos
                <= timeout,
            ReadyAction::Return(url) => url is None && elapsed >= timeout,
            ReadyAction::ReadClock => false,
        },
{
}

/// Whether the clock was short of the deadline at each of `readings`, and had
/// moved on by `pause` or more from one to the next.
spec fn goes_on_at(readings: Seq<u128>, timeout: u64, pause: u64) -> bool {
    &&& forall|i: int| 0 <= i < readings.len() ==> #[trigger] readings[i] < timeout
    &&& forall|i: int|
        0 < i < readings.len() ==> #[trigger] readings[i] >= readings[i - 1] + pause
}

/// The last of `n` readings is `n - 1` pauses behind the start or more.
proof fn lemma_pauses_add_up(readings: Seq<u128>, timeout: u64, pause: u64)
    requires
        goes_on_at(readings, timeout, pause),
        readings.len() > 0,
    ensures
        readings.last() >= (readings.len() - 1) * pause,
    decreases readings.len(),
{
    if readings.len() > 1 {
        let n = readings.len() as int;
        let earlier = readings.drop_last();
        assert forall|i: int| 0 <= i < earlier.len() implies #[trigger] earlier[i] < timeout by {
            assert(earlier[i] == readings[i]);
        }
        assert forall|i: int| 0 < i < earlier.len() implies #[trigger] earlier[i] >= earlier[i - 1]
            + pause by {
            assert(earlier[i] == readings[i] && earlier[i - 1] == readings[i - 1]);
        }
        lemma_pauses_add_up(earlier, timeout, pause);
        assert(readings[n - 1] >= readings[n - 2] + pause);
        assert((n - 1) * pause == (n - 2) * pause + pause) by (nonlinear_arith);
    } else {
        assert((readings.len() - 1) * pause == 0) by (nonlinear_arith)
            requires
                readings.len() == 1,
        ;
    }
}

/// A wait for an exit ends: as the clock moves on by each sleep, the child is
/// polled at most once per [`EXIT_POLL_NANOS`] of the time allowed, and once
/// more.
pub proof fn law_exit_wait_ends(readings: Seq<u128>, timeout: u64)
    requires
        forall|i: int|
            0 <= i < readings.len() ==> exit_action(timeout, ExitEvent::Clock(#[trigger] readings[i]))
                == ExitAction::TryWait,
        forall|i: int|
            0 < i < readings.len() ==> #[trigger] readings[i] >= readings[i - 1] + EXIT_POLL_NANOS,
    ensures
        (readings.len() - 1) * EXIT_POLL_NANOS < timeout || readings.len() == 0,
{
    if readings.len() > 0 {
        assert forall|i: int| 0 <= i < readings.len() implies #[trigger] readings[i] < timeout by {
            assert(exit_action(timeout, ExitEvent::Clock(readings[i])) == ExitAction::TryWait);
        }
        lemma_pauses_add_up(readings, timeout, EXIT_POLL_NANOS);
    }
}

/// A wait for the announcement ends: as the clock moves on by each wait that
/// brought nothing, it is read at most once per [`READY_POLL_NANOS`] of the
/// time allowed, and once more, before it says that time is up.
pub proof fn law_ready_wait_ends(readings: Seq<u128>, timeout: u64)
    requires
        forall|i: int|
            0 <= i < readings.len() ==> ready_action(
                timeout,
                ReadyEvent::Clock(#[trigger] readings[i]),
            ) is Receive,
        forall|i: int|
            0 < i < readings.len() ==> #[trigger] readings[i] >= readings[i - 1] + ready_action(
                timeout,
                ReadyEvent::Clock(readings[i - 1]),
            )->Receive_0,
    ensures
        (readings.len() - 1) * READY_POLL_NANOS < timeout || readings.len() == 0,
{
    if readings.len() > 0 {
        assert forall|i: int| 0 <= i < readings.len() implies #[trigger] readings[i] < timeout by {
            assert(ready_action(timeout, ReadyEvent::Clock(readings[i])) is Receive);
        }
        assert forall|i: int| 0 < i < readings.len() implies #[trigger] readings[i] >= readings[i
            - 1] + READY_POLL_NANOS by {
            assert(readings[i] < timeout);
        }
        lemma_pauses_add_up(readings, timeout, READY_POLL_NANOS);
    }
}

/// A wait for the announcement gives up when its time is up, when stdout was
/// closed, or when the child has exited or cannot be polled, and for no other
/// reason; a child that is running, or that is not this wait's to look after,
/// is waited for on.
pub proof fn law_ready_wait_gives_up_only_for_cause(timeout: u64, event: ReadyEvent)
    ensures
        ready_action(timeout, event) == ReadyAction::Return(None) <==> {
            ||| event matches ReadyEvent::Clock(elapsed) && elapsed >= timeout
            ||| event is Disconnected
            ||| event == ReadyEvent::Silence(Some(ChildPoll::Exited))
            ||| event == ReadyEvent::Silence(Some(ChildPoll::Failed))
        },
        ready_action(timeout, event) is ReadClock <==> {
            ||| event == ReadyEvent::Silence(None)
            ||| event == ReadyEvent::Silence(Some(ChildPoll::Running))
        },
{
}

/// A wait for the announcement is cut short by the deadline only: each part of
/// it lasts 200 ms, or all the time that is left where that is less.
pub proof fn law_ready_wait_uses_its_time(timeout: u64, elapsed: u128)
    requires
        elapsed < timeout,
    ensures
        ready_action(timeout, ReadyEvent::Clock(elapsed)) matches ReadyAction::Receive(nanos)
            && elapsed + nanos <= timeout && nanos <= 200_000_000 && (nanos == 200_000_000
            || elapsed + nanos == timeout),
{
}

/// A wait for an exit says that the child has exited if a poll found that, and
/// that it has not if time is up; until then it polls whenever the clock was
/// read and sleeps for 100 ms after a poll that found no exit.
pub proof fn law_exit_wait_ends_with_exit_or_deadline(timeout: u64, event: ExitEvent)
    ensures
        exit_action(timeout, event) == ExitAction::Return(true) <==> event == ExitEvent::Polled(
            ChildPoll::Exited,
        ),
        exit_action(timeout, event) == ExitAction::Return(false) <==> (event
            matches ExitEvent::Clock(elapsed) && elapsed >= timeout),
        exit_action(timeout, event) == ExitAction::TryWait <==> (event matches ExitEvent::Clock(
            elapsed,
        ) && elapsed < timeout),
        exit_action(timeout, event) == ExitAction::Sleep(100_000_000) <==> (event
            matches ExitEvent::Polled(poll) && poll != ChildPoll::Exited),
        exit_action(timeout, event) == ExitAction::ReadClock <==> event is Slept,
{
}

} // verus!
