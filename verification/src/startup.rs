//! What the desktop window shows as the wrapped `dsh web` starts up, or fails
//! to.
use crate::page::{
    launch_failure_page, startup_failure_page, unparseable_url_page, STDERR_GRACE_NANOS,
};
use crate::wait::READY_TIMEOUT_NANOS;
use vstd::prelude::*;

verus! {

/// What happened to the start-up.
pub enum StartupEvent {
    /// The child could not be spawned; that was recorded.
    LaunchFailed {
        /// What was attempted.
        attempted: String,
        /// What came of it.
        error: String,
    },
    /// The child was spawned, and the slot took it or did not.
    Recorded(bool),
    /// The wait for the announcement is over.
    ReadyWaitOver(Option<String>),
    /// The child was stopped.
    ChildStopped,
    /// The last of its stderr has come, or has taken too long.
    StderrAwaited,
    /// This was captured of its stderr.
    StderrGathered(Vec<u8>),
    /// The window could not parse the URL it was given.
    UrlRefused {
        /// Why not.
        error: String,
        /// The URL.
        url: String,
    },
}

/// What the start-up does next.
pub enum StartupAction {
    /// Wait for the announcement, for at most so many nanoseconds.
    AwaitReady(u64),
    /// Stop the child.
    StopChild,
    /// Wait for the last of its stderr, for at most so many nanoseconds.
    AwaitStderr(u64),
    /// Gather what was captured of its stderr.
    GatherStderr,
    /// Show this URL in the window.
    Navigate(String),
    /// Leave the window as it is: the shell is being torn down.
    Leave,
}

/// What a [`StartupAction`] says.
pub enum StartupText {
    /// Wait for the announcement.
    AwaitReady(u64),
    /// Stop the child.
    StopChild,
    /// Wait for the last of its stderr.
    AwaitStderr(u64),
    /// Gather what was captured of its stderr.
    GatherStderr,
    /// Show a URL.
    Navigate(Seq<char>),
    /// Leave the window as it is.
    Leave,
}

impl View for StartupAction {
    type V = StartupText;

    open spec fn view(&self) -> StartupText {
        match self {
            StartupAction::AwaitReady(nanos) => StartupText::AwaitReady(*nanos),
            StartupAction::StopChild => StartupText::StopChild,
            StartupAction::AwaitStderr(nanos) => StartupText::AwaitStderr(*nanos),
            StartupAction::GatherStderr => StartupText::GatherStderr,
            StartupAction::Navigate(url) => StartupText::Navigate(url@),
            StartupAction::Leave => StartupText::Leave,
        }
    }
}

/// What [`startup_step`] returns.
pub open spec fn startup_text(event: StartupEvent) -> StartupText {
    match event {
        StartupEvent::LaunchFailed { attempted, error } => StartupText::Navigate(
            crate::page::message_page_text(
                crate::page::launch_failure_message(attempted@, error@),
            ),
        ),
        StartupEvent::Recorded(true) => StartupText::AwaitReady(READY_TIMEOUT_NANOS),
        StartupEvent::Recorded(false) => StartupText::Leave,
        StartupEvent::ReadyWaitOver(Some(url)) => StartupText::Navigate(url@),
        StartupEvent::ReadyWaitOver(None) => StartupText::StopChild,
        StartupEvent::ChildStopped => StartupText::AwaitStderr(STDERR_GRACE_NANOS),
        StartupEvent::StderrAwaited => StartupText::GatherStderr,
        StartupEvent::StderrGathered(stderr) => StartupText::Navigate(
            crate::page::message_page_text(
                crate::page::failure_message(crate::page::lossy_text(stderr@)),
            ),
        ),
        StartupEvent::UrlRefused { error, url } => StartupText::Navigate(
            crate::page::message_page_text(crate::page::unparseable_url_message(error@, url@)),
        ),
    }
}

/// Goes on with the start-up. A child that did not announce itself is stopped
/// before the window says so: a URL announced later would have nowhere to go.
/// Its stderr is gathered only after that, and after a short wait for the last
/// of it, which can come in later than the end of its stdout.
pub fn startup_step(event: StartupEvent) -> (action: StartupAction)
    ensures
        action@ == startup_text(event),
        event matches StartupEvent::StderrGathered(stderr) ==> vstd::utf8::valid_utf8(stderr@)
            ==> action@ == StartupText::Navigate(
            crate::page::message_page_text(
                crate::page::failure_message(vstd::utf8::decode_utf8(stderr@)),
            ),
        ),
{
    match event {
        StartupEvent::LaunchFailed { attempted, error } => StartupAction::Navigate(
            launch_failure_page(attempted.as_str(), error.as_str()),
        ),
        StartupEvent::Recorded(true) => StartupAction::AwaitReady(READY_TIMEOUT_NANOS),
        StartupEvent::Recorded(false) => StartupAction::Leave,
        StartupEvent::ReadyWaitOver(Some(url)) => StartupAction::Navigate(url),
        StartupEvent::ReadyWaitOver(None) => StartupAction::StopChild,
        StartupEvent::ChildStopped => StartupAction::AwaitStderr(STDERR_GRACE_NANOS),
        StartupEvent::StderrAwaited => StartupAction::GatherStderr,
        StartupEvent::StderrGathered(stderr) => StartupAction::Navigate(
            startup_failure_page(stderr.as_slice()),
        ),
        StartupEvent::UrlRefused { error, url } => StartupAction::Navigate(
            unparseable_url_page(error.as_str(), url.as_str()),
        ),
    }
}

/// Whatever the start-up shows is the URL that was announced or a `data:` URL
/// of its own making that no error text or process output can break.
pub proof fn law_window_shows_announced_url_or_own_page(event: StartupEvent)
    requires
        startup_text(event) is Navigate,
    ensures
        ({
            let shown = startup_text(event)->Navigate_0;
            ||| event matches StartupEvent::ReadyWaitOver(Some(url)) && url@ == shown
            ||| "data:text/html;charset=utf-8,"@.is_prefix_of(shown)
                && crate::page::stays_in_body(shown)
        }),
{
    match event {
        StartupEvent::LaunchFailed { attempted, error } => {
            crate::page::law_message_page_is_one_data_url(
                crate::page::launch_failure_message(attempted@, error@),
            );
        },
        StartupEvent::StderrGathered(stderr) => {
            crate::page::law_message_page_is_one_data_url(
                crate::page::failure_message(crate::page::lossy_text(stderr@)),
            );
        },
        StartupEvent::UrlRefused { error, url } => {
            crate::page::law_message_page_is_one_data_url(
                crate::page::unparseable_url_message(error@, url@),
            );
        },
        _ => {},
    }
}

/// Whether `event` can come of `action`.
pub open spec fn comes_of(action: StartupText, event: StartupEvent) -> bool {
    match action {
        StartupText::AwaitReady(_) => event is ReadyWaitOver,
        StartupText::StopChild => event is ChildStopped,
        StartupText::AwaitStderr(_) => event is StderrAwaited,
        StartupText::GatherStderr => event is StderrGathered,
        StartupText::Navigate(_) => event is UrlRefused,
        StartupText::Leave => false,
    }
}

/// Whether `events` are a start-up: the spawn's outcome first, then each time
/// what came of the action before.
pub open spec fn is_startup(events: Seq<StartupEvent>) -> bool {
    &&& events.len() > 0 ==> events[0] is LaunchFailed || events[0] is Recorded
    &&& forall|i: int|
        0 < i < events.len() ==> comes_of(startup_text(events[i - 1]), #[trigger] events[i])
}

/// A start-up that fails is explained in one order only: the child was spawned
/// and taken, its announcement was waited for and did not come, the child was
/// stopped, the last of its stderr was waited for, and only then was stderr
/// gathered and shown.
pub proof fn law_failed_start_up_is_explained_in_order(events: Seq<StartupEvent>, i: int)
    requires
        is_startup(events),
        0 <= i < events.len(),
        events[i] is StderrGathered,
    ensures
        i == 4,
        events[0] == StartupEvent::Recorded(true),
        events[1] == StartupEvent::ReadyWaitOver(None),
        events[2] is ChildStopped,
        events[3] is StderrAwaited,
        startup_text(events[0]) == StartupText::AwaitReady(READY_TIMEOUT_NANOS),
        startup_text(events[1]) is StopChild,
        startup_text(events[2]) == StartupText::AwaitStderr(STDERR_GRACE_NANOS),
        startup_text(events[3]) is GatherStderr,
        startup_text(events[4]) is Navigate,
{
    assert(comes_of(startup_text(events[i - 1]), events[i]));
    assert(comes_of(startup_text(events[i - 2]), events[i - 1]));
    assert(comes_of(startup_text(events[i - 3]), events[i - 2]));
    assert(comes_of(startup_text(events[i - 4]), events[i - 3]));
    if i > 4 {
        assert(comes_of(startup_text(events[i - 5]), events[i - 4]));
    }
}

/// What is said of an action is what it holds.
pub proof fn law_startup_action_says_what_it_holds(action: StartupAction)
    ensures
        match action {
            StartupAction::AwaitReady(nanos) => action@ == StartupText::AwaitReady(nanos),
            StartupAction::StopChild => action@ is StopChild,
            StartupAction::AwaitStderr(nanos) => action@ == StartupText::AwaitStderr(nanos),
            StartupAction::GatherStderr => action@ is GatherStderr,
            StartupAction::Navigate(url) => action@ == StartupText::Navigate(url@),
            StartupAction::Leave => action@ is Leave,
        },
{
}

/// The window shows the announced URL itself, character for character, and
/// otherwise a page that displays what went wrong in full: the attempt and its
/// error, what the child wrote to stderr, or the URL that was refused.
pub proof fn law_window_says_what_happened(event: StartupEvent)
    ensures
        match event {
            StartupEvent::LaunchFailed { attempted, error } => {
                startup_text(event) matches StartupText::Navigate(page)
                    && crate::page::text_displayed(page) == Some(
                    "failed to launch dsh --profile web ("@ + attempted@ + "): "@ + error@,
                )
            },
            StartupEvent::ReadyWaitOver(Some(url)) => {
                startup_text(event) == StartupText::Navigate(url@)
            },
            StartupEvent::StderrGathered(stderr) => {
                let diagnostic = crate::page::lossy_text(stderr@);
                startup_text(event) matches StartupText::Navigate(page)
                    && crate::page::text_displayed(page) == Some(
                    if forall|i: int|
                        0 <= i < diagnostic.len() ==> crate::text::is_white_space(
                            #[trigger] diagnostic[i],
                        ) {
                        "dsh web did not become reachable within 30s. Check that `dsh` is on PATH and the configured port is free, then restart."@
                    } else {
                        "dsh web failed to start:\n\n"@ + diagnostic
                    },
                )
            },
            StartupEvent::UrlRefused { error, url } => {
                startup_text(event) matches StartupText::Navigate(page)
                    && crate::page::text_displayed(page) == Some(
                    "dsh web announced an unparseable URL ("@ + error@ + "): "@ + url@,
                )
            },
            _ => !(startup_text(event) is Navigate),
        },
{
    match event {
        StartupEvent::LaunchFailed { attempted, error } => {
            crate::page::law_launch_failure_page_names_the_attempt(attempted@, error@);
        },
        StartupEvent::StderrGathered(stderr) => {
            crate::page::law_failure_page_displays_stderr(crate::page::lossy_text(stderr@));
        },
        StartupEvent::UrlRefused { error, url } => {
            crate::page::law_unparseable_url_page_names_the_url(error@, url@);
        },
        _ => {},
    }
}

/// A child that was taken is waited for, for 30 s; one that was not is nobody's
/// to wait for. Where the wait brought nothing the child is stopped, the last
/// of its stderr is waited for, for half a second, and then it is gathered.
pub proof fn law_startup_waits_and_cleans_up(event: StartupEvent)
    ensures
        event == StartupEvent::Recorded(true) <==> startup_text(event) is AwaitReady,
        event == StartupEvent::Recorded(false) <==> startup_text(event) is Leave,
        event == StartupEvent::ReadyWaitOver(None) <==> startup_text(event) is StopChild,
        event is ChildStopped <==> startup_text(event) is AwaitStderr,
        event is StderrAwaited <==> startup_text(event) is GatherStderr,
        startup_text(event) matches StartupText::AwaitReady(nanos) ==> nanos == 30_000_000_000,
        startup_text(event) matches StartupText::AwaitStderr(nanos) ==> nanos == 500_000_000,
{
}

} // verus!
