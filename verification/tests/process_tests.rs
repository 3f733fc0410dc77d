use dsh_shell::command::{CommandLine, Platform};
use dsh_shell::startup::{startup_step, StartupAction, StartupEvent};
use dsh_shell::terminate::{
    ChildPoll, TerminateAction, TerminateReply, Termination, EXIT_GRACE_NANOS,
};
use dsh_shell::wait::{
    exit_wait_step, ready_wait_step, ExitAction, ExitEvent, ReadyAction, ReadyEvent,
    READY_TIMEOUT_NANOS,
};

fn shown(command: &CommandLine) -> String {
    assert_eq!(command.no_window, command.program == "taskkill");
    let mut text = command.program.clone();
    for arg in &command.args {
        text.push(' ');
        text.push_str(arg);
    }
    text
}

fn performed(platform: Platform, poll: ChildPoll, group_alive: bool) -> Vec<String> {
    let mut termination = Termination::new(platform, 4021);
    let mut actions = Vec::new();
    loop {
        let reply = match termination.action() {
            TerminateAction::TryWait => {
                actions.push("poll".to_string());
                TerminateReply::Polled(poll)
            }
            TerminateAction::Run(command) => {
                actions.push(shown(&command));
                TerminateReply::Ran(group_alive)
            }
            TerminateAction::WaitForExit(nanos) => {
                actions.push(format!("grace {nanos}"));
                TerminateReply::Performed
            }
            TerminateAction::Kill => {
                actions.push("child.kill".to_string());
                TerminateReply::Performed
            }
            TerminateAction::Wait => {
                actions.push("child.wait".to_string());
                TerminateReply::Performed
            }
            TerminateAction::Return => return actions,
        };
        termination.advance(reply);
    }
}

#[test]
fn an_exited_child_is_not_signalled() {
    for platform in [Platform::Unix, Platform::Windows] {
        assert_eq!(performed(platform, ChildPoll::Exited, true), vec!["poll"]);
        assert_eq!(performed(platform, ChildPoll::Failed, true), vec!["poll"]);
    }
}

#[test]
fn a_surviving_group_is_killed_after_the_grace_period() {
    assert_eq!(EXIT_GRACE_NANOS, 5_000_000_000);
    assert_eq!(
        performed(Platform::Unix, ChildPoll::Running, true),
        vec![
            "poll",
            "kill -TERM -4021",
            "grace 5000000000",
            "kill -0 -4021",
            "kill -KILL -4021",
            "child.kill",
            "child.wait"
        ]
    );
}

#[test]
fn an_empty_group_is_not_killed() {
    assert_eq!(
        performed(Platform::Unix, ChildPoll::Running, false),
        vec![
            "poll",
            "kill -TERM -4021",
            "grace 5000000000",
            "kill -0 -4021",
            "child.kill",
            "child.wait"
        ]
    );
}

#[test]
fn windows_forces_the_whole_tree_down() {
    for status in [true, false] {
        assert_eq!(
            performed(Platform::Windows, ChildPoll::Running, status),
            vec!["poll", "taskkill /PID 4021 /T /F", "child.wait"]
        );
    }
}

#[test]
fn an_exit_is_polled_for_until_the_deadline() {
    let timeout = EXIT_GRACE_NANOS;
    assert_eq!(exit_wait_step(timeout, ExitEvent::Clock(0)), ExitAction::TryWait);
    assert_eq!(exit_wait_step(timeout, ExitEvent::Clock(4_999_999_999)), ExitAction::TryWait);
    assert_eq!(exit_wait_step(timeout, ExitEvent::Clock(5_000_000_000)), ExitAction::Return(false));
    assert_eq!(exit_wait_step(timeout, ExitEvent::Clock(u128::MAX)), ExitAction::Return(false));
    assert_eq!(
        exit_wait_step(timeout, ExitEvent::Polled(ChildPoll::Exited)),
        ExitAction::Return(true)
    );
    for poll in [ChildPoll::Running, ChildPoll::Failed] {
        assert_eq!(
            exit_wait_step(timeout, ExitEvent::Polled(poll)),
            ExitAction::Sleep(100_000_000)
        );
    }
    assert_eq!(exit_wait_step(timeout, ExitEvent::Slept), ExitAction::ReadClock);
}

#[test]
fn an_exit_wait_ends() {
    let mut clock: u128 = 0;
    let mut polls = 0;
    while exit_wait_step(EXIT_GRACE_NANOS, ExitEvent::Clock(clock)) == ExitAction::TryWait {
        polls += 1;
        clock += 100_000_000;
    }
    assert_eq!(polls, 50);
}

#[test]
fn a_ready_wait_is_cut_into_short_waits() {
    let step = |elapsed| ready_wait_step(READY_TIMEOUT_NANOS, ReadyEvent::Clock(elapsed));
    assert!(matches!(step(0), ReadyAction::Receive(200_000_000)));
    assert!(matches!(step(29_800_000_000), ReadyAction::Receive(200_000_000)));
    assert!(matches!(step(29_900_000_000), ReadyAction::Receive(100_000_000)));
    assert!(matches!(step(29_999_999_999), ReadyAction::Receive(1)));
    assert!(matches!(step(30_000_000_000), ReadyAction::Return(None)));
    assert!(matches!(step(u128::MAX), ReadyAction::Return(None)));
}

#[test]
fn a_ready_wait_ends() {
    let mut clock: u128 = 0;
    let mut waits = 0;
    while let ReadyAction::Receive(nanos) =
        ready_wait_step(READY_TIMEOUT_NANOS, ReadyEvent::Clock(clock))
    {
        waits += 1;
        clock += u128::from(nanos);
    }
    assert_eq!(waits, 150);
    assert_eq!(clock, u128::from(READY_TIMEOUT_NANOS));
}

#[test]
fn a_ready_wait_returns_what_was_announced() {
    let event = ReadyEvent::Announced("http://127.0.0.1:5175/".to_string());
    match ready_wait_step(READY_TIMEOUT_NANOS, event) {
        ReadyAction::Return(Some(url)) => assert_eq!(url, "http://127.0.0.1:5175/"),
        _ => panic!("the announced URL is the result"),
    }
}

#[test]
fn a_ready_wait_gives_up_on_a_lost_child() {
    let step = |event| ready_wait_step(READY_TIMEOUT_NANOS, event);
    assert!(matches!(step(ReadyEvent::Disconnected), ReadyAction::Return(None)));
    assert!(matches!(
        step(ReadyEvent::Silence(Some(ChildPoll::Exited))),
        ReadyAction::Return(None)
    ));
    assert!(matches!(
        step(ReadyEvent::Silence(Some(ChildPoll::Failed))),
        ReadyAction::Return(None)
    ));
    assert!(matches!(
        step(ReadyEvent::Silence(Some(ChildPoll::Running))),
        ReadyAction::ReadClock
    ));
    assert!(matches!(step(ReadyEvent::Silence(None)), ReadyAction::ReadClock));
}

fn navigated(event: StartupEvent) -> String {
    match startup_step(event) {
        StartupAction::Navigate(url) => url,
        _ => panic!("the window is to show something"),
    }
}

#[test]
fn a_start_up_awaits_the_announcement_and_shows_it() {
    assert!(matches!(
        startup_step(StartupEvent::Recorded(true)),
        StartupAction::AwaitReady(30_000_000_000)
    ));
    assert!(matches!(startup_step(StartupEvent::Recorded(false)), StartupAction::Leave));
    let url = "http://127.0.0.1:5175/?token=a".to_string();
    assert_eq!(navigated(StartupEvent::ReadyWaitOver(Some(url.clone()))), url);
}

#[test]
fn a_failed_start_up_stops_the_child_and_explains() {
    assert!(matches!(
        startup_step(StartupEvent::ReadyWaitOver(None)),
        StartupAction::StopChild
    ));
    assert!(matches!(
        startup_step(StartupEvent::ChildStopped),
        StartupAction::AwaitStderr(500_000_000)
    ));
    assert!(matches!(startup_step(StartupEvent::StderrAwaited), StartupAction::GatherStderr));
    assert!(navigated(StartupEvent::StderrGathered(b"EADDRINUSE #1".to_vec()))
        .ends_with("<p>dsh web failed to start:%0A%0AEADDRINUSE %231</p></body></html>"));
    let failed = StartupEvent::LaunchFailed {
        attempted: "`dsh` on PATH".to_string(),
        error: "not found".to_string(),
    };
    assert!(navigated(failed).ends_with(
        "<p>failed to launch dsh --profile web (`dsh` on PATH): not found</p></body></html>"
    ));
    let refused = StartupEvent::UrlRefused { error: "bad".to_string(), url: "u?v".to_string() };
    assert!(navigated(refused).ends_with(
        "<p>dsh web announced an unparseable URL (bad): u%3Fv</p></body></html>"
    ));
}
