use dsh_shell::slot::{
    finish_stop, record_spawn_outcome, shutdown, stop_running_child, ChildSlot, StopStep,
};
use dsh_shell::tail::{CaptureAction, CaptureEvent, StderrTail, MAX_STDERR_BYTES};

fn append(tail: &mut StderrTail, chunk: &[u8]) {
    assert_eq!(tail.step(CaptureEvent::Chunk(chunk)), CaptureAction::Read);
}

#[test]
fn a_spawned_child_is_taken_once() {
    let mut slot: ChildSlot<u32> = ChildSlot::Pending;
    let record = record_spawn_outcome(&mut slot, Some(7));
    assert!(record.accepted && record.leftover.is_none());
    assert!(matches!(slot, ChildSlot::Running(7)));
    assert!(matches!(stop_running_child(&mut slot), StopStep::Terminate(7)));
    assert!(matches!(slot, ChildSlot::Stopping));
    assert!(matches!(stop_running_child(&mut slot), StopStep::Wait));
    assert!(matches!(shutdown(&mut slot), StopStep::Wait));
    finish_stop(&mut slot);
    assert!(matches!(slot, ChildSlot::Stopped));
    assert!(matches!(stop_running_child(&mut slot), StopStep::Return));
    assert!(matches!(shutdown(&mut slot), StopStep::Return));
    assert!(matches!(slot, ChildSlot::Stopped));
}

#[test]
fn a_failed_spawn_leaves_nothing_to_stop() {
    let mut slot: ChildSlot<u32> = ChildSlot::Pending;
    let record = record_spawn_outcome(&mut slot, None);
    assert!(record.accepted && record.leftover.is_none());
    assert!(matches!(slot, ChildSlot::Stopped));
    assert!(matches!(shutdown(&mut slot), StopStep::Return));
}

#[test]
fn a_shutdown_waits_for_the_spawn() {
    let mut slot: ChildSlot<u32> = ChildSlot::Pending;
    assert!(matches!(shutdown(&mut slot), StopStep::Wait));
    assert!(matches!(stop_running_child(&mut slot), StopStep::Return));
    assert!(matches!(slot, ChildSlot::Pending));
    assert!(record_spawn_outcome(&mut slot, Some(1)).accepted);
    assert!(matches!(shutdown(&mut slot), StopStep::Terminate(1)));
}

#[test]
fn a_later_child_is_handed_back() {
    let mut slot: ChildSlot<u32> = ChildSlot::Running(1);
    let record = record_spawn_outcome(&mut slot, Some(2));
    assert!(!record.accepted);
    assert_eq!(record.leftover, Some(2));
    assert!(matches!(slot, ChildSlot::Running(1)));
    let mut stopped: ChildSlot<u32> = ChildSlot::Stopped;
    let record = record_spawn_outcome(&mut stopped, None);
    assert!(!record.accepted && record.leftover.is_none());
    assert!(matches!(stopped, ChildSlot::Stopped));
}

#[test]
fn a_short_stream_is_kept_whole() {
    let mut tail = StderrTail::new();
    assert_eq!(tail.bytes(), b"");
    append(&mut tail, b"Error: ");
    append(&mut tail, b"");
    append(&mut tail, b"in use\n");
    assert_eq!(tail.bytes(), b"Error: in use\n");
}

#[test]
fn a_long_stream_is_kept_to_its_end() {
    assert_eq!(MAX_STDERR_BYTES, 16 * 1024);
    let stream: Vec<u8> = (0..3 * MAX_STDERR_BYTES + 5).map(|i| (i % 251) as u8).collect();
    for size in [1000, 4096, 20000, stream.len()] {
        let mut tail = StderrTail::new();
        for chunk in stream.chunks(size) {
            append(&mut tail, chunk);
        }
        assert_eq!(tail.bytes(), &stream[stream.len() - MAX_STDERR_BYTES..]);
    }
}

#[test]
fn a_stream_of_exactly_the_bound_is_kept() {
    let stream = vec![b'e'; MAX_STDERR_BYTES];
    let mut tail = StderrTail::new();
    append(&mut tail, &stream);
    assert_eq!(tail.bytes().len(), MAX_STDERR_BYTES);
    append(&mut tail, b"f");
    assert_eq!(tail.bytes().len(), MAX_STDERR_BYTES);
    assert_eq!(tail.bytes()[MAX_STDERR_BYTES - 1], b'f');
}

#[test]
fn the_end_of_stderr_is_announced_once_and_final() {
    let mut tail = StderrTail::new();
    append(&mut tail, b"kept");
    assert_eq!(tail.step(CaptureEvent::Failed), CaptureAction::Announce);
    assert_eq!(tail.step(CaptureEvent::Announced), CaptureAction::Close);
    assert_eq!(tail.step(CaptureEvent::Eof), CaptureAction::Close);
    assert_eq!(tail.step(CaptureEvent::Chunk(b"late")), CaptureAction::Close);
    assert_eq!(tail.bytes(), b"kept");

    let mut tail = StderrTail::new();
    assert_eq!(tail.step(CaptureEvent::Eof), CaptureAction::Announce);
    assert_eq!(tail.step(CaptureEvent::Announced), CaptureAction::Close);
    assert_eq!(tail.bytes(), b"");
}
