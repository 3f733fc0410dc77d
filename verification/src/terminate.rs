//! Stopping the wrapped child process and everything that it started.
use crate::command::{CommandLine, Platform};
use crate::text::decimal;
use vstd::prelude::*;
use vstd::string::*;

verus! {

/// How long, in nanoseconds, a child may take to exit once it was asked to.
pub const EXIT_GRACE_NANOS: u64 = 5_000_000_000;

/// What polling a child process for its exit status found.
#[derive(Clone, Copy, Debug, PartialEq, Eq, Structural)]
pub enum ChildPoll {
    /// It is running.
    Running,
    /// It has exited, and was reaped by this poll or an earlier one.
    Exited,
    /// Its status could not be had.
    Failed,
}

/// Where a termination stands: the action to be performed next.
#[derive(Clone, Copy, Debug, PartialEq, Eq, Structural)]
pub enum TerminatePhase {
    /// See whether the child has exited already.
    Poll,
    /// Windows: force the whole process tree down.
    KillTree,
    /// Ask the process group to stop.
    AskGroup,
    /// Give the child time to exit.
    Grace,
    /// See whether anything in the process group is left.
    ProbeGroup,
    /// Force the process group down.
    KillGroup,
    /// Force the child itself down.
    KillChild,
    /// Wait for the child and reap it.
    Reap,
    /// Nothing is left to do.
    Done,
}

/// What is to be done to the child, or on its account.
pub enum TerminateAction {
    /// Poll the child for its exit status.
    TryWait,
    /// Run this command to its end.
    Run(CommandLine),
    /// Wait for the child to exit, for at most so many nanoseconds.
    WaitForExit(u64),
    /// Kill the child.
    Kill,
    /// Wait for the child, however long it takes.
    Wait,
    /// Return.
    Return,
}

/// What a [`TerminateAction`] says.
pub enum ActionText {
    /// Poll the child.
    TryWait,
    /// Run a command.
    Run(crate::command::CommandText),
    /// Wait for a limited time.
    WaitForExit(u64),
    /// Kill the child.
    Kill,
    /// Wait for the child.
    Wait,
    /// Return.
    Return,
}

impl View for TerminateAction {
    type V = ActionText;

    open spec fn view(&self) -> ActionText {
        match self {
            TerminateAction::TryWait => ActionText::TryWait,
            TerminateAction::Run(command) => ActionText::Run(command@),
            TerminateAction::WaitForExit(nanos) => ActionText::WaitForExit(*nanos),
            TerminateAction::Kill => ActionText::Kill,
            TerminateAction::Wait => ActionText::Wait,
            TerminateAction::Return => ActionText::Return,
        }
    }
}

/// What came of an action.
#[derive(Clone, Copy, Debug, PartialEq, Eq, Structural)]
pub enum TerminateReply {
    /// What a poll found.
    Polled(ChildPoll),
    /// Whether a command ran and reported success.
    Ran(bool),
    /// Anything else was done.
    Performed,
}

/// The process group of `pid`, as `kill` names it.
pub open spec fn group_text(pid: u32) -> Seq<char> {
    "-"@ + crate::text::decimal_text(pid as nat)
}

/// `kill` with `signal` for the whole process group of `pid`.
pub open spec fn kill_group_text(signal: Seq<char>, pid: u32) -> crate::command::CommandText {
    crate::command::CommandText {
        program: "kill"@,
        args: seq![signal, group_text(pid)],
        no_window: false,
    }
}

/// `taskkill` for the whole process tree of `pid`, forced, without a console
/// window flashing up.
pub open spec fn taskkill_text(pid: u32) -> crate::command::CommandText {
    crate::command::CommandText {
        program: "taskkill"@,
        args: seq!["/PID"@, crate::text::decimal_text(pid as nat), "/T"@, "/F"@],
        no_window: true,
    }
}

/// The action of `phase` for the child `pid`.
pub open spec fn action_text(phase: TerminatePhase, pid: u32) -> ActionText {
    match phase {
        TerminatePhase::Poll => ActionText::TryWait,
        TerminatePhase::KillTree => ActionText::Run(taskkill_text(pid)),
        TerminatePhase::AskGroup => ActionText::Run(kill_group_text("-TERM"@, pid)),
        TerminatePhase::Grace => ActionText::WaitForExit(EXIT_GRACE_NANOS),
        TerminatePhase::ProbeGroup => ActionText::Run(kill_group_text("-0"@, pid)),
        TerminatePhase::KillGroup => ActionText::Run(kill_group_text("-KILL"@, pid)),
        TerminatePhase::KillChild => ActionText::Kill,
        TerminatePhase::Reap => ActionText::Wait,
        TerminatePhase::Done => ActionText::Return,
    }
}

/// The phase behind `phase`, given what came of its action.
pub open spec fn phase_after(
    phase: TerminatePhase,
    platform: Platform,
    reply: TerminateReply,
) -> TerminatePhase {
    match phase {
        TerminatePhase::Poll => if reply != TerminateReply::Polled(ChildPoll::Running) {
            TerminatePhase::Done
        } else if platform == Platform::Windows {
            TerminatePhase::KillTree
        } else {
            TerminatePhase::AskGroup
        },
        TerminatePhase::KillTree => TerminatePhase::Reap,
        TerminatePhase::AskGroup => TerminatePhase::Grace,
        TerminatePhase::Grace => TerminatePhase::ProbeGroup,
        TerminatePhase::ProbeGroup => if reply == TerminateReply::Ran(true) {
            TerminatePhase::KillGroup
        } else {
            TerminatePhase::KillChild
        },
        TerminatePhase::KillGroup => TerminatePhase::KillChild,
        TerminatePhase::KillChild => TerminatePhase::Reap,
        TerminatePhase::Reap => TerminatePhase::Done,
        TerminatePhase::Done => TerminatePhase::Done,
    }
}

/// `kill` with `signal` for the whole process group of `pid`.
fn kill_group(signal: &str, pid: u32) -> (command: CommandLine)
    ensures
        command@ == kill_group_text(signal@, pid),
{
    let mut group: String = "-".to_owned();
    let number: String = decimal(pid);
    group.append(number.as_str());
    let mut command: CommandLine = CommandLine::new("kill".to_owned(), false);
    command.arg(signal);
    command.arg(group.as_str());
    assert(command@.args =~= seq![signal@, group_text(pid)]);
    command
}

/// `taskkill` for the whole process tree of `pid`, forced.
fn taskkill(pid: u32) -> (command: CommandLine)
    ensures
        command@ == taskkill_text(pid),
{
    let number: String = decimal(pid);
    let mut command: CommandLine = CommandLine::new("taskkill".to_owned(), true);
    command.arg("/PID");
    command.arg(number.as_str());
    command.arg("/T");
    command.arg("/F");
    assert(command@.args =~= taskkill_text(pid).args);
    command
}

/// The termination of one child process.
///
/// Nothing is signalled unless a first poll finds the child running: once it
/// was reaped, the system may have given its number to another process.
///
/// On Unix the child leads a process group of its own. The group is asked to
/// stop and given [`EXIT_GRACE_NANOS`]; whether it is then forced down is
/// decided by whether anything in the group is left, not by whether the child
/// itself has exited, since a descendant can outlive it. On Windows, where no
/// request short of force reaches a console process, the whole tree is forced
/// down at once. In the end the child itself is reaped.
pub struct Termination {
    /// The system that the shell runs on.
    pub platform: Platform,
    /// The child's process number.
    pub pid: u32,
    /// The phase that comes next.
    pub phase: TerminatePhase,
}

impl Termination {
    /// The termination of the child `pid`, of which nothing has been done.
    pub fn new(platform: Platform, pid: u32) -> (termination: Termination)
        ensures
            termination == (Termination { platform, pid, phase: TerminatePhase::Poll }),
    {
        Termination { platform, pid, phase: TerminatePhase::Poll }
    }

    /// The action to be performed next.
    pub fn action(&self) -> (action: TerminateAction)
        ensures
            action@ == action_text(self.phase, self.pid),
    {
        match self.phase {
            TerminatePhase::Poll => TerminateAction::TryWait,
            TerminatePhase::KillTree => TerminateAction::Run(taskkill(self.pid)),
            TerminatePhase::AskGroup => TerminateAction::Run(kill_group("-TERM", self.pid)),
            TerminatePhase::Grace => TerminateAction::WaitForExit(EXIT_GRACE_NANOS),
            TerminatePhase::ProbeGroup => TerminateAction::Run(kill_group("-0", self.pid)),
            TerminatePhase::KillGroup => TerminateAction::Run(kill_group("-KILL", self.pid)),
            TerminatePhase::KillChild => TerminateAction::Kill,
            TerminatePhase::Reap => TerminateAction::Wait,
            TerminatePhase::Done => TerminateAction::Return,
        }
    }

    /// Goes on to the next phase, given what came of the action.
    pub fn advance(&mut self, reply: TerminateReply)
        ensures
            *final(self) == (Termination {
                phase: phase_after(old(self).phase, old(self).platform, reply),
                ..*old(self)
            }),
    {
        self.phase = match self.phase {
            TerminatePhase::Poll => if reply != TerminateReply::Polled(ChildPoll::Running) {
                TerminatePhase::Done
            } else if self.platform == Platform::Windows {
                TerminatePhase::KillTree
            } else {
                TerminatePhase::AskGroup
            },
            TerminatePhase::KillTree => TerminatePhase::Reap,
            TerminatePhase::AskGroup => TerminatePhase::Grace,
            TerminatePhase::Grace => TerminatePhase::ProbeGroup,
            TerminatePhase::ProbeGroup => if reply == TerminateReply::Ran(true) {
                TerminatePhase::KillGroup
            } else {
                TerminatePhase::KillChild
            },
            TerminatePhase::KillGroup => TerminatePhase::KillChild,
            TerminatePhase::KillChild => TerminatePhase::Reap,
            TerminatePhase::Reap => TerminatePhase::Done,
            TerminatePhase::Done => TerminatePhase::Done,
        };
    }
}

/// How many phases can still follow.
pub open spec fn phases_left(phase: TerminatePhase) -> nat {
    match phase {
        TerminatePhase::Poll => 7,
        TerminatePhase::AskGroup => 6,
        TerminatePhase::Grace => 5,
        TerminatePhase::ProbeGroup => 4,
        TerminatePhase::KillGroup => 3,
        TerminatePhase::KillTree => 2,
        TerminatePhase::KillChild => 2,
        TerminatePhase::Reap => 1,
        TerminatePhase::Done => 0,
    }
}

/// What a termination does from `phase` on, where the action of each phase is
/// answered as `replies` says.
pub open spec fn actions_from(
    phase: TerminatePhase,
    platform: Platform,
    pid: u32,
    replies: spec_fn(TerminatePhase) -> TerminateReply,
) -> Seq<ActionText>
    decreases phases_left(phase),
{
    if phase is Done {
        seq![]
    } else {
        seq![action_text(phase, pid)] + actions_from(
            phase_after(phase, platform, replies(phase)),
            platform,
            pid,
            replies,
        )
    }
}

/// A child that has exited, or whose status cannot be had, is polled and then
/// left alone: nothing is signalled, killed or waited for.
pub proof fn law_exited_child_is_not_signalled(
    platform: Platform,
    pid: u32,
    replies: spec_fn(TerminatePhase) -> TerminateReply,
)
    requires
        replies(TerminatePhase::Poll) != TerminateReply::Polled(ChildPoll::Running),
    ensures
        actions_from(TerminatePhase::Poll, platform, pid, replies) == seq![ActionText::TryWait],
{
    reveal_with_fuel(actions_from, 2);
    assert(actions_from(TerminatePhase::Poll, platform, pid, replies) =~= seq![
        ActionText::TryWait,
    ]);
}

/// On Windows a running child's whole tree is forced down, and the child is
/// reaped.
pub proof fn law_windows_termination(
    pid: u32,
    replies: spec_fn(TerminatePhase) -> TerminateReply,
)
    requires
        replies(TerminatePhase::Poll) == TerminateReply::Polled(ChildPoll::Running),
    ensures
        actions_from(TerminatePhase::Poll, Platform::Windows, pid, replies) == seq![
            ActionText::TryWait,
            ActionText::Run(taskkill_text(pid)),
            ActionText::Wait,
        ],
{
    reveal_with_fuel(actions_from, 4);
    assert(actions_from(TerminatePhase::Poll, Platform::Windows, pid, replies) =~= seq![
        ActionText::TryWait,
        ActionText::Run(taskkill_text(pid)),
        ActionText::Wait,
    ]);
}

/// Elsewhere a running child's group is asked to stop first, and is forced
/// down only if something of it is left after the grace period, whatever
/// became of the child itself; the child is killed and reaped in any case.
pub proof fn law_unix_termination(pid: u32, replies: spec_fn(TerminatePhase) -> TerminateReply)
    requires
        replies(TerminatePhase::Poll) == TerminateReply::Polled(ChildPoll::Running),
    ensures
        actions_from(TerminatePhase::Poll, Platform::Unix, pid, replies) == seq![
            ActionText::TryWait,
            ActionText::Run(kill_group_text("-TERM"@, pid)),
            ActionText::WaitForExit(EXIT_GRACE_NANOS),
            ActionText::Run(kill_group_text("-0"@, pid)),
        ] + (if replies(TerminatePhase::ProbeGroup) == TerminateReply::Ran(true) {
            seq![ActionText::Run(kill_group_text("-KILL"@, pid))]
        } else {
            seq![]
        }) + seq![ActionText::Kill, ActionText::Wait],
{
    reveal_with_fuel(actions_from, 8);
    assert(actions_from(TerminatePhase::Poll, Platform::Unix, pid, replies) =~= seq![
        ActionText::TryWait,
        ActionText::Run(kill_group_text("-TERM"@, pid)),
        ActionText::WaitForExit(EXIT_GRACE_NANOS),
        ActionText::Run(kill_group_text("-0"@, pid)),
    ] + (if replies(TerminatePhase::ProbeGroup) == TerminateReply::Ran(true) {
        seq![ActionText::Run(kill_group_text("-KILL"@, pid))]
    } else {
        seq![]
    }) + seq![ActionText::Kill, ActionText::Wait]);
}

/// What is said of an action is what it holds.
pub proof fn law_terminate_action_says_what_it_holds(action: TerminateAction)
    ensures
        match action {
            TerminateAction::TryWait => action@ is TryWait,
            TerminateAction::Run(command) => action@ == ActionText::Run(command@),
            TerminateAction::WaitForExit(nanos) => action@ == ActionText::WaitForExit(nanos),
            TerminateAction::Kill => action@ is Kill,
            TerminateAction::Wait => action@ is Wait,
            TerminateAction::Return => action@ is Return,
        },
{
}

/// Whether `action` runs `kill` with `signal` for the whole process group that
/// `pid` leads: the target is a minus sign and the number `pid`, which names
/// the group, and never the process alone.
pub open spec fn signals_whole_group(action: ActionText, signal: Seq<char>, pid: u32) -> bool {
    &&& action matches ActionText::Run(command)
    &&& command.program == "kill"@
    &&& command.args.len() == 2
    &&& command.args[0] == signal
    &&& command.args[1].len() > 0
    &&& command.args[1][0] == '-'
    &&& crate::text::reads_as_number(command.args[1].skip(1), pid as nat)
    &&& !command.no_window
}

/// Whether `action` runs `taskkill`, without a console window, to force down
/// the process `pid` and everything that it started.
pub open spec fn forces_whole_tree(action: ActionText, pid: u32) -> bool {
    &&& action matches ActionText::Run(command)
    &&& command.program == "taskkill"@
    &&& command.args.len() == 4
    &&& command.args[0] == "/PID"@
    &&& crate::text::reads_as_number(command.args[1], pid as nat)
    &&& command.args[2] == "/T"@
    &&& command.args[3] == "/F"@
    &&& command.no_window
}

/// The command for a group names that group, by its leader's number behind a
/// minus sign, for every number there is.
pub proof fn law_group_is_named_by_its_leader(signal: Seq<char>, pid: u32)
    ensures
        signals_whole_group(ActionText::Run(kill_group_text(signal, pid)), signal, pid),
{
    crate::text::law_decimal_reads_back(pid as nat);
    reveal_strlit("-");
    assert(group_text(pid).skip(1) =~= crate::text::decimal_text(pid as nat));
}

/// The command for a process tree names the process at its root, for every
/// number there is.
pub proof fn law_tree_is_named_by_its_root(pid: u32)
    ensures
        forces_whole_tree(ActionText::Run(taskkill_text(pid)), pid),
{
    crate::text::law_decimal_reads_back(pid as nat);
}

/// On Unix a running child's whole group is asked to stop, given 5 s, looked
/// for, and forced down if anything of it is left; then the child is killed and
/// reaped. Each command is for the group, and there is no other command.
pub proof fn law_unix_termination_reaches_the_whole_group(
    pid: u32,
    replies: spec_fn(TerminatePhase) -> TerminateReply,
)
    requires
        replies(TerminatePhase::Poll) == TerminateReply::Polled(ChildPoll::Running),
    ensures
        ({
            let actions = actions_from(TerminatePhase::Poll, Platform::Unix, pid, replies);
            let survivors = replies(TerminatePhase::ProbeGroup) == TerminateReply::Ran(true);
            &&& actions.len() == if survivors {
                7int
            } else {
                6
            }
            &&& actions[0] is TryWait
            &&& signals_whole_group(actions[1], "-TERM"@, pid)
            &&& actions[2] == ActionText::WaitForExit(5_000_000_000)
            &&& signals_whole_group(actions[3], "-0"@, pid)
            &&& survivors ==> signals_whole_group(actions[4], "-KILL"@, pid)
            &&& actions[actions.len() - 2] is Kill
            &&& actions[actions.len() - 1] is Wait
        }),
{
    law_unix_termination(pid, replies);
    law_group_is_named_by_its_leader("-TERM"@, pid);
    law_group_is_named_by_its_leader("-0"@, pid);
    law_group_is_named_by_its_leader("-KILL"@, pid);
}

/// On Windows a running child's whole tree is forced down at once, and the
/// child is reaped; nothing else is done.
pub proof fn law_windows_termination_reaches_the_whole_tree(
    pid: u32,
    replies: spec_fn(TerminatePhase) -> TerminateReply,
)
    requires
        replies(TerminatePhase::Poll) == TerminateReply::Polled(ChildPoll::Running),
    ensures
        ({
            let actions = actions_from(TerminatePhase::Poll, Platform::Windows, pid, replies);
            &&& actions.len() == 3
            &&& actions[0] is TryWait
            &&& forces_whole_tree(actions[1], pid)
            &&& actions[2] is Wait
        }),
{
    law_windows_termination(pid, replies);
    law_tree_is_named_by_its_root(pid);
}

/// A termination returns once it is done, not before, and stays done.
pub proof fn law_termination_returns_when_done(
    phase: TerminatePhase,
    platform: Platform,
    pid: u32,
    reply: TerminateReply,
)
    ensures
        action_text(phase, pid) is Return <==> phase is Done,
        phase is Done ==> phase_after(phase, platform, reply) is Done,
{
}

} // verus!
