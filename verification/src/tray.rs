//! The tray shell: no window, only an icon with a menu.
use crate::command::{CommandLine, Platform};
use crate::launch::{add_web_args, Program, Setting, Stream, WebLaunch};
use crate::ready::WEB_HOST;
use vstd::prelude::*;
use vstd::string::*;

verus! {

/// Where the wrapped web profile listens.
pub struct WebProfile {
    /// The host.
    pub host: String,
    /// The port.
    pub port: String,
}

impl WebProfile {
    /// The profile's URL, as text.
    pub open spec fn url_text(&self) -> Seq<char> {
        "http://"@ + self.host@ + ":"@ + self.port@
    }

    /// The profile's URL.
    pub fn url(&self) -> (url: String)
        ensures
            url@ == self.url_text(),
    {
        let mut url: String = "http://".to_owned();
        url.append(self.host.as_str());
        url.append(":");
        url.append(self.port.as_str());
        url
    }
}

/// The host to ask for, given the configured one.
pub fn web_host(configured: Option<String>) -> (host: String)
    ensures
        host@ == match configured {
            Some(configured) => configured@,
            None => WEB_HOST@,
        },
        configured is None ==> host@ == "127.0.0.1"@,
{
    match configured {
        Some(configured) => configured,
        None => WEB_HOST.to_owned(),
    }
}

/// What runs `dsh`: the configured launcher if that is set, to whatever value,
/// otherwise the one on `PATH`.
pub open spec fn is_dsh_program<R>(program: Program<R>, cli_path: Setting<R>) -> bool {
    match cli_path {
        Setting::Text(path) => program == Program::<R>::Text(path),
        Setting::Raw { value, .. } => program == Program::Raw(value),
        Setting::Unset => crate::launch::is_program(program, "dsh"@),
    }
}

/// Locates the `dsh` launcher.
pub fn dsh_command<R>(cli_path: Setting<R>) -> (program: Program<R>)
    ensures
        is_dsh_program(program, cli_path),
{
    match cli_path {
        Setting::Text(path) => Program::Text(path),
        Setting::Raw { value, .. } => Program::Raw(value),
        Setting::Unset => Program::Text("dsh".to_owned()),
    }
}

/// The tray shell's launch of `dsh --profile web`, with all streams closed, in
/// the shell's own directory and process group.
pub fn spawn_web_profile<R>(cli_path: Setting<R>, profile: &WebProfile) -> (launch: WebLaunch<R>)
    ensures
        is_dsh_program(launch.program, cli_path),
        crate::command::texts(launch.args@) == crate::launch::web_args(
            profile.host@,
            profile.port@,
        ),
        launch.directory is Unset,
        !launch.own_group,
        !launch.no_window,
        launch.stdin == Stream::Null,
        launch.stdout == Stream::Null,
        launch.stderr == Stream::Null,
{
    let program: Program<R> = dsh_command(cli_path);
    let mut args: Vec<String> = Vec::new();
    add_web_args(&mut args, profile.host.as_str(), profile.port.as_str());
    assert(crate::command::texts(args@) =~= crate::launch::web_args(profile.host@, profile.port@));
    WebLaunch {
        program,
        args,
        directory: Setting::Unset,
        own_group: false,
        no_window: false,
        stdin: Stream::Null,
        stdout: Stream::Null,
        stderr: Stream::Null,
    }
}

/// What is said when the launch fails.
pub fn launch_failure_message(error: &str) -> (message: String)
    ensures
        message@
            == "failed to launch `dsh --profile web` (checked DSH_CLI_PATH, then PATH): "@ + error@,
{
    let mut message: String =
        "failed to launch `dsh --profile web` (checked DSH_CLI_PATH, then PATH): ".to_owned();
    message.append(error);
    message
}

/// The command that opens `url` in the default browser, as text.
pub open spec fn browser_text(platform: Platform, url: Seq<char>) -> crate::command::CommandText {
    if platform == Platform::Windows {
        crate::command::CommandText {
            program: "cmd"@,
            args: seq!["/C"@, "start"@, ""@, url],
            no_window: false,
        }
    } else {
        crate::command::CommandText { program: "xdg-open"@, args: seq![url], no_window: false }
    }
}

/// The command that opens `url` in the default browser.
pub fn open_in_browser(platform: Platform, url: &str) -> (command: CommandLine)
    ensures
        command@ == browser_text(platform, url@),
{
    let command: CommandLine = match platform {
        Platform::Windows => {
            let mut command: CommandLine = CommandLine::new("cmd".to_owned(), false);
            command.arg("/C");
            command.arg("start");
            command.arg("");
            command.arg(url);
            command
        },
        Platform::Unix => {
            let mut command: CommandLine = CommandLine::new("xdg-open".to_owned(), false);
            command.arg(url);
            command
        },
    };
    assert(command@.args =~= browser_text(platform, url@).args);
    command
}

/// The identifier of the menu entry that opens the browser.
pub const OPEN_ID: &'static str = "open";

/// The identifier of the menu entry that quits.
pub const QUIT_ID: &'static str = "quit";

/// What a menu entry does.
#[derive(Clone, Copy, Debug, PartialEq, Eq, Structural)]
pub enum MenuAction {
    /// Open the profile's URL in the browser.
    Open,
    /// Stop the child and exit.
    Quit,
    /// Nothing.
    Ignore,
}

/// What the menu entry `id` does.
pub fn menu_action(id: &str) -> (action: MenuAction)
    ensures
        action == if id@ == OPEN_ID@ {
            MenuAction::Open
        } else if id@ == QUIT_ID@ {
            MenuAction::Quit
        } else {
            MenuAction::Ignore
        },
        action == MenuAction::Open <==> id@ == "open"@,
        action == MenuAction::Quit <==> id@ == "quit"@,
{
    proof {
        reveal_strlit("open");
        reveal_strlit("quit");
        assert(OPEN_ID@[0] != QUIT_ID@[0]);
    }
    let id: String = id.to_owned();
    if id == OPEN_ID.to_owned() {
        MenuAction::Open
    } else if id == QUIT_ID.to_owned() {
        MenuAction::Quit
    } else {
        MenuAction::Ignore
    }
}

/// Takes the child to be killed and reaped: the first caller gets it, and
/// there is none for any other.
pub fn shutdown<C>(child: &mut Option<C>) -> (taken: Option<C>)
    ensures
        taken == *old(child),
        *final(child) is None,
{
    child.take()
}

/// The URL that the menu opens is the one that the child was asked to serve.
pub proof fn law_opened_url_is_what_was_asked_for(profile: WebProfile)
    ensures
        ({
            let args = crate::launch::web_args(profile.host@, profile.port@);
            &&& args[2] == "--host"@
            &&& args[4] == "--port"@
            &&& profile.url_text() == "http://"@ + args[3] + ":"@ + args[5]
        }),
{
}

/// On every system, the command that opens the browser is given the URL, whole,
/// as its last argument. On Windows the command is `start`, run by `cmd`, which
/// takes its first argument for a title: that one is empty. Elsewhere it is
/// `xdg-open`, and the URL is all that it is given.
pub proof fn law_browser_is_given_the_url(platform: Platform, url: Seq<char>)
    ensures
        ({
            let command = browser_text(platform, url);
            &&& command.args.last() == url
            &&& !command.no_window
            &&& match platform {
                Platform::Windows => command.program == "cmd"@ && command.args.drop_last() == seq![
                    "/C"@,
                    "start"@,
                    Seq::<char>::empty(),
                ],
                Platform::Unix => command.program == "xdg-open"@ && command.args.len() == 1,
            }
        }),
{
    reveal_strlit("");
    if platform == Platform::Windows {
        assert(""@ =~= seq![]);
        assert(browser_text(platform, url).args.drop_last() =~= seq![
            "/C"@,
            "start"@,
            Seq::<char>::empty(),
        ]);
    }
}

/// What the browser is given for a profile is the host and port that the child
/// was asked to serve, as its command line reads, behind `http://`.
pub proof fn law_browser_is_sent_where_the_child_serves(platform: Platform, profile: WebProfile)
    ensures
        crate::launch::options_read(
            crate::launch::web_args(profile.host@, profile.port@),
        ) matches Some(asked) && asked.host matches Some(host) && asked.port matches Some(port)
            && browser_text(platform, profile.url_text()).args.last() == "http://"@ + host + ":"@
            + port,
{
    crate::launch::law_web_profile_is_asked_for(profile.host@, profile.port@);
    law_browser_is_given_the_url(platform, profile.url_text());
}

/// A configured launcher is run as it is; otherwise `dsh` is run by its name.
pub proof fn law_tray_runs_the_configured_launcher<R>(program: Program<R>, cli_path: Setting<R>)
    requires
        is_dsh_program(program, cli_path),
    ensures
        match cli_path {
            Setting::Text(path) => program matches Program::Text(name) && name@ == path@,
            Setting::Raw { value, .. } => program == Program::Raw(value),
            Setting::Unset => program matches Program::Text(name) && name@ == "dsh"@,
        },
{
}

} // verus!
