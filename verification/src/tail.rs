//! The bounded record of what `dsh web` wrote to stderr.
use vstd::prelude::*;

verus! {

/// Bytes of stderr that are kept at most.
pub const MAX_STDERR_BYTES: usize = 16384;

/// The last `n` bytes of `bytes`, or all of them where there are fewer.
pub open spec fn last_bytes(bytes: Seq<u8>, n: nat) -> Seq<u8> {
    if bytes.len() <= n {
        bytes
    } else {
        bytes.skip(bytes.len() - n)
    }
}

/// What happened to the reading of stderr.
pub enum CaptureEvent<'a> {
    /// These bytes were read.
    Chunk(&'a [u8]),
    /// Stderr has ended.
    Eof,
    /// A read failed.
    Failed,
    /// It was said that no more will come.
    Announced,
}

/// What the reading of stderr does next.
#[derive(Clone, Copy, Debug, PartialEq, Eq, Structural)]
pub enum CaptureAction {
    /// Read on.
    Read,
    /// Say that no more will come.
    Announce,
    /// Close stderr.
    Close,
}

/// What a [`StderrTail`] has seen so far.
pub struct CaptureState {
    /// What is kept.
    pub bytes: Seq<u8>,
    /// Whether stderr has ended, or could be read no further.
    pub ended: bool,
}

/// Whether `event` ends the reading of stderr.
pub open spec fn ends_capture(event: CaptureEvent<'_>) -> bool {
    event is Eof || event is Failed
}

impl CaptureState {
    /// Before anything has been read.
    pub open spec fn init() -> CaptureState {
        CaptureState { bytes: seq![], ended: false }
    }

    /// The state behind `event`.
    pub open spec fn stepped(self, event: CaptureEvent<'_>) -> CaptureState {
        if self.ended {
            self
        } else {
            match event {
                CaptureEvent::Chunk(chunk) => CaptureState {
                    bytes: last_bytes(self.bytes + chunk@, MAX_STDERR_BYTES as nat),
                    ..self
                },
                CaptureEvent::Eof => CaptureState { ended: true, ..self },
                CaptureEvent::Failed => CaptureState { ended: true, ..self },
                CaptureEvent::Announced => self,
            }
        }
    }

    /// What is done upon `event`.
    pub open spec fn action(self, event: CaptureEvent<'_>) -> CaptureAction {
        if self.ended {
            CaptureAction::Close
        } else if ends_capture(event) {
            CaptureAction::Announce
        } else {
            CaptureAction::Read
        }
    }

    /// Whether no more is kept than may be.
    pub open spec fn bounded(self) -> bool {
        self.bytes.len() <= MAX_STDERR_BYTES
    }
}

/// The most recent output of a stream.
///
/// The bound is on bytes, not on lines, so that a process that writes one
/// endless line cannot make it grow.
pub struct StderrTail {
    bytes: Vec<u8>,
    ended: bool,
}

impl View for StderrTail {
    type V = CaptureState;

    closed spec fn view(&self) -> CaptureState {
        CaptureState { bytes: self.bytes@, ended: self.ended }
    }
}

impl StderrTail {
    /// The record of a stream of which nothing has been read.
    pub fn new() -> (tail: StderrTail)
        ensures
            tail@ == CaptureState::init(),
            tail@.bounded(),
    {
        let tail = StderrTail { bytes: Vec::new(), ended: false };
        assert(tail@.bytes =~= seq![]);
        tail
    }

    /// Adds the bytes just read, and forgets the oldest that are too many.
    fn append(&mut self, chunk: &[u8])
        ensures
            final(self)@ == (CaptureState {
                bytes: last_bytes(old(self)@.bytes + chunk@, MAX_STDERR_BYTES as nat),
                ..old(self)@
            }),
    {
        self.bytes.extend_from_slice(chunk);
        assert(self.bytes@ =~= old(self)@.bytes + chunk@);
        if self.bytes.len() > MAX_STDERR_BYTES {
            let excess: usize = self.bytes.len() - MAX_STDERR_BYTES;
            let kept: Vec<u8> = self.bytes.split_off(excess);
            self.bytes = kept;
        }
        assert(self@.bytes =~= last_bytes(old(self)@.bytes + chunk@, MAX_STDERR_BYTES as nat));
    }

    /// Goes on with the reading of stderr: what is read is kept until the
    /// stream ends or a read fails. That is then announced, once, and nothing
    /// changes any more.
    pub fn step(&mut self, event: CaptureEvent<'_>) -> (action: CaptureAction)
        ensures
            final(self)@ == old(self)@.stepped(event),
            action == old(self)@.action(event),
            old(self)@.bounded() ==> final(self)@.bounded(),
    {
        if self.ended {
            return CaptureAction::Close;
        }
        match event {
            CaptureEvent::Chunk(chunk) => {
                self.append(chunk);
                CaptureAction::Read
            },
            CaptureEvent::Eof => {
                self.ended = true;
                CaptureAction::Announce
            },
            CaptureEvent::Failed => {
                self.ended = true;
                CaptureAction::Announce
            },
            CaptureEvent::Announced => CaptureAction::Read,
        }
    }

    /// What is kept.
    pub fn bytes(&self) -> (bytes: &[u8])
        ensures
            bytes@ == self@.bytes,
    {
        self.bytes.as_slice()
    }
}

/// The state of a record with the history `events`.
pub open spec fn captured(events: Seq<CaptureEvent<'_>>) -> CaptureState
    decreases events.len(),
{
    if events.len() == 0 {
        CaptureState::init()
    } else {
        captured(events.drop_last()).stepped(events.last())
    }
}

/// Whether stderr ended, or could be read no further, in the history `events`.
pub open spec fn has_ended(events: Seq<CaptureEvent<'_>>) -> bool {
    exists|i: int| 0 <= i < events.len() && ends_capture(#[trigger] events[i])
}

/// Everything that was read in the history `events` before it ended.
pub open spec fn stream_read(events: Seq<CaptureEvent<'_>>) -> Seq<u8>
    decreases events.len(),
{
    if events.len() == 0 {
        seq![]
    } else {
        let before = stream_read(events.drop_last());
        match events.last() {
            CaptureEvent::Chunk(chunk) if !has_ended(events.drop_last()) => before + chunk@,
            _ => before,
        }
    }
}

/// However a stream is cut into chunks, the record holds the last
/// [`MAX_STDERR_BYTES`] bytes of all that was read of it, or all of it, and
/// knows whether it has ended.
pub proof fn law_tail_is_the_end_of_the_stream(events: Seq<CaptureEvent<'_>>)
    ensures
        captured(events).bytes == last_bytes(stream_read(events), MAX_STDERR_BYTES as nat),
        captured(events).bounded(),
        captured(events).ended == has_ended(events),
    decreases events.len(),
{
    if events.len() > 0 {
        let earlier = events.drop_last();
        law_tail_is_the_end_of_the_stream(earlier);
        if has_ended(earlier) {
            let i = choose|i: int| 0 <= i < earlier.len() && ends_capture(#[trigger] earlier[i]);
            assert(ends_capture(events[i]));
        } else if ends_capture(events.last()) {
            assert(ends_capture(events[events.len() - 1]));
        } else if has_ended(events) {
            let i = choose|i: int| 0 <= i < events.len() && ends_capture(#[trigger] events[i]);
            assert(ends_capture(earlier[i]));
        }
        assert(captured(events).bytes =~= last_bytes(
            stream_read(events),
            MAX_STDERR_BYTES as nat,
        ));
    }
}

/// The end is announced when it comes and not before: as long as stderr has
/// not ended it is read on, and its end, or a read that fails, is announced at
/// once.
pub proof fn law_end_of_stderr_is_announced(events: Seq<CaptureEvent<'_>>, event: CaptureEvent<'_>)
    requires
        !has_ended(events),
    ensures
        captured(events).action(event) == if ends_capture(event) {
            CaptureAction::Announce
        } else {
            CaptureAction::Read
        },
{
    law_tail_is_the_end_of_the_stream(events);
}

/// The end is announced once, and what is kept by then is final: whatever
/// happens to an ended record, it is the same afterwards and there is nothing
/// to do but to close stderr.
pub proof fn law_ended_record_is_final<'a>(
    events: Seq<CaptureEvent<'a>>,
    more: Seq<CaptureEvent<'a>>,
    event: CaptureEvent<'a>,
)
    requires
        has_ended(events),
    ensures
        captured(events + more) == captured(events),
        captured(events + more).action(event) == CaptureAction::Close,
    decreases more.len(),
{
    law_tail_is_the_end_of_the_stream(events);
    if more.len() == 0 {
        assert(events + more =~= events);
    } else {
        law_ended_record_is_final(events, more.drop_last(), event);
        assert((events + more).drop_last() =~= events + more.drop_last());
    }
}

/// However a stream is cut into chunks, what is kept of it is its very end: the
/// last 16384 bytes of all that was read, or everything where that is less.
pub proof fn law_most_recent_bytes_are_kept(events: Seq<CaptureEvent<'_>>, i: int)
    ensures
        ({
            let kept = captured(events).bytes;
            let read = stream_read(events);
            &&& kept.len() == if read.len() < 16384 {
                read.len()
            } else {
                16384
            }
            &&& 0 <= i < kept.len() ==> kept[i] == read[read.len() - kept.len() + i]
        }),
{
    law_tail_is_the_end_of_the_stream(events);
}

/// Stderr is read on until it ends or a read fails, either of which ends the
/// reading, is announced there and then, and leaves nothing to do after that
/// but to close stderr.
pub proof fn law_capture_ends_with_the_stream(
    events: Seq<CaptureEvent<'_>>,
    event: CaptureEvent<'_>,
)
    ensures
        captured(events).ended == exists|i: int|
            0 <= i < events.len() && (#[trigger] events[i] is Eof || events[i] is Failed),
        captured(events).action(event) == if captured(events).ended {
            CaptureAction::Close
        } else if event is Eof || event is Failed {
            CaptureAction::Announce
        } else {
            CaptureAction::Read
        },
{
    law_tail_is_the_end_of_the_stream(events);
    if has_ended(events) {
        let i = choose|i: int| 0 <= i < events.len() && ends_capture(#[trigger] events[i]);
        assert(events[i] is Eof || events[i] is Failed);
    }
    if exists|i: int| 0 <= i < events.len() && (#[trigger] events[i] is Eof || events[i] is Failed) {
        let i = choose|i: int|
            0 <= i < events.len() && (#[trigger] events[i] is Eof || events[i] is Failed);
        assert(ends_capture(events[i]));
    }
}

} // verus!
