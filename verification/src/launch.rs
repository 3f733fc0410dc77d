//! How the shells launch `dsh --profile web`.
use crate::command::{push_arg, Platform};
use crate::ready::WEB_HOST;
use crate::text::{chars_of, string_between};
use vstd::prelude::*;
use vstd::string::*;

verus! {

/// The port that is asked for where none is configured.
pub const DEFAULT_PORT: &'static str = "5175";

/// What one of a child's standard streams is connected to.
#[derive(Clone, Copy, Debug, PartialEq, Eq, Structural)]
pub enum Stream {
    /// Nothing: what is written is discarded, and there is nothing to read.
    Null,
    /// A pipe to the shell.
    Piped,
}

/// What an environment variable holds. A value that is not Unicode is no less
/// set than any other: it is carried along as the system has it, as an `R`.
pub enum Setting<R> {
    /// The variable is not set.
    Unset,
    /// Its value.
    Text(String),
    /// Its value, which is not Unicode.
    Raw {
        /// The value as the system has it.
        value: R,
        /// The value as it is shown to the user.
        shown: String,
    },
}

/// What is run.
pub enum Program<R> {
    /// This path, or this name, to be found on `PATH`.
    Text(String),
    /// The configured path that is not Unicode, as it is.
    Raw(R),
    /// The configured path that is not Unicode, taken from the directory that
    /// the shell itself was started in where it is relative.
    RawWithin(R),
}

/// Everything that decides how the child is spawned.
pub struct WebLaunch<R> {
    /// What is run.
    pub program: Program<R>,
    /// Its arguments.
    pub args: Vec<String>,
    /// The directory it runs in; the shell's own where there is none.
    pub directory: Setting<R>,
    /// Whether it leads a process group of its own.
    pub own_group: bool,
    /// Whether it is kept from opening a console window.
    pub no_window: bool,
    /// Its standard input.
    pub stdin: Stream,
    /// Its standard output.
    pub stdout: Stream,
    /// Its standard error.
    pub stderr: Stream,
}

/// Whether `program` is the text `text`.
pub open spec fn is_program<R>(program: Program<R>, text: Seq<char>) -> bool {
    program matches Program::Text(program) && program@ == text
}

/// The characters of a string that may be missing.
pub open spec fn optional_text(s: Option<String>) -> Option<Seq<char>> {
    match s {
        Some(s) => Some(s@),
        None => None,
    }
}

/// The arguments that make `dsh` serve its web profile at `host` and `port`.
pub open spec fn web_args(host: Seq<char>, port: Seq<char>) -> Seq<Seq<char>> {
    seq!["--profile"@, "web"@, "--host"@, host, "--port"@, port, "--no-open"@]
}

/// Adds the arguments that make `dsh` serve its web profile.
pub fn add_web_args(args: &mut Vec<String>, host: &str, port: &str)
    ensures
        crate::command::texts(final(args)@) == crate::command::texts(old(args)@) + web_args(
            host@,
            port@,
        ),
{
    push_arg(args, "--profile");
    push_arg(args, "web");
    push_arg(args, "--host");
    push_arg(args, host);
    push_arg(args, "--port");
    push_arg(args, port);
    push_arg(args, "--no-open");
    assert(crate::command::texts(args@) =~= crate::command::texts(old(args)@) + web_args(
        host@,
        port@,
    ));
}

/// The port to ask for, given the configured one.
pub fn web_port(configured: Option<String>) -> (port: String)
    ensures
        port@ == match configured {
            Some(configured) => configured@,
            None => DEFAULT_PORT@,
        },
        configured is None ==> port@ == "5175"@,
{
    match configured {
        Some(configured) => configured,
        None => DEFAULT_PORT.to_owned(),
    }
}

/// The variable that names the user's home directory.
pub fn home_variable(platform: Platform) -> (name: &'static str)
    ensures
        name@ == if platform == Platform::Windows {
            "USERPROFILE"@
        } else {
            "HOME"@
        },
{
    match platform {
        Platform::Windows => "USERPROFILE",
        Platform::Unix => "HOME",
    }
}

/// The directory that `dsh web` runs in, which it takes for the root of its
/// workspace: the configured one if that is set, otherwise the user's home.
/// Only where neither is set is the shell's own directory inherited.
pub fn workspace_dir<R>(configured: Setting<R>, home: Setting<R>) -> (dir: Setting<R>)
    ensures
        dir == if configured is Unset {
            home
        } else {
            configured
        },
{
    match configured {
        Setting::Unset => home,
        _ => configured,
    }
}

/// A character that separates the parts of a path on some system.
pub open spec fn is_separator(c: char) -> bool {
    c == '/' || c == '\\'
}

/// Whether `path` is a drive, or begins with one, on a system that has drives.
pub open spec fn has_drive(path: Seq<char>) -> bool {
    path.len() >= 2 && path[1] == ':' && !is_separator(path[0])
}

/// Whether `path` begins with two separators: with a share or a device, on a
/// system that has those.
pub open spec fn has_share(path: Seq<char>) -> bool {
    path.len() >= 2 && is_separator(path[0]) && is_separator(path[1])
}

/// Whether some system may take `path` for absolute: it begins with a
/// separator, or with a drive and something behind it.
pub open spec fn may_be_absolute(path: Seq<char>) -> bool {
    &&& path.len() > 0
    &&& is_separator(path[0]) || (has_drive(path) && path.len() >= 3)
}

/// Whether `dir` is in Windows' verbatim form, in which joining normalises.
pub open spec fn is_verbatim(dir: Seq<char>) -> bool {
    "\\\\?\\"@.is_prefix_of(dir)
}

/// What follows the last separator of `path`.
pub open spec fn last_part(path: Seq<char>) -> Seq<char>
    decreases path.len(),
{
    if path.len() == 0 || is_separator(path.last()) {
        seq![]
    } else {
        last_part(path.drop_last()).push(path.last())
    }
}

/// Whether `path` begins neither with a separator nor with a drive: every
/// system takes it for relative to the current directory.
pub open spec fn is_plainly_relative(path: Seq<char>) -> bool {
    !(path.len() > 0 && is_separator(path[0])) && !has_drive(path)
}

/// Whether `path` is a single name: no separator, no drive, and neither of the
/// two names that stand for directories.
pub open spec fn is_plain_name(path: Seq<char>) -> bool {
    &&& path.len() > 0
    &&& forall|i: int| 0 <= i < path.len() ==> !is_separator(#[trigger] path[i]) && path[i] != ':'
    &&& path != "."@
    &&& path != ".."@
}

/// Whether a path can be added to `dir` as it is, on some system: `dir` is
/// empty, ends with a separator or is a bare drive.
pub open spec fn needs_no_separator(dir: Seq<char>) -> bool {
    dir.len() == 0 || is_separator(dir.last()) || (has_drive(dir) && dir.len() == 2)
}

/// Whether `joined` is `path` added to `dir`, behind a separator where one is
/// needed.
pub open spec fn is_added(joined: Seq<char>, dir: Seq<char>, path: Seq<char>) -> bool {
    ||| joined == dir + path && needs_no_separator(dir)
    ||| joined == dir + seq!['/'] + path && dir.len() > 0 && dir.last() != '/'
    ||| joined == dir + seq!['\\'] + path && dir.len() > 0 && !is_separator(dir.last())
}

/// Whether `joined` is `path` in place of `dir`, of which at most a drive, or a
/// share, is kept.
pub open spec fn is_in_place(joined: Seq<char>, dir: Seq<char>, path: Seq<char>) -> bool {
    let kept = joined.len() - path.len();
    ||| joined == path
    ||| has_drive(dir) && joined == dir.take(2) + path
    ||| has_share(dir) && 2 <= kept <= dir.len() && joined == dir.take(kept) + path
}

/// What joining `dir` and `path` can give, over all systems: a path that begins
/// with a slash replaces the directory; one that begins with a backslash or a
/// drive does so on Windows only; any other is added to it.
pub open spec fn can_join_to(joined: Seq<char>, dir: Seq<char>, path: Seq<char>) -> bool {
    if is_verbatim(dir) {
        &&& joined == path || is_verbatim(joined)
        &&& is_plainly_relative(path) ==> is_verbatim(joined)
        &&& is_plain_name(last_part(path)) ==> last_part(path).is_suffix_of(joined)
    } else if path.len() > 0 && path[0] == '/' {
        is_in_place(joined, dir, path)
    } else if path.len() > 0 && path[0] == '\\' {
        is_in_place(joined, dir, path) || is_added(joined, dir, path)
    } else if has_drive(path) {
        joined == path || is_added(joined, dir, path)
    } else {
        is_added(joined, dir, path)
    }
}

/// `std::path::Path::is_absolute`. What counts as absolute depends on the
/// system, so only this is stated: nothing is absolute that begins with
/// neither a separator nor a drive.
#[verifier::external_body]
fn is_absolute(path: &str) -> (absolute: bool)
    ensures
        absolute ==> may_be_absolute(path@),
{
    std::path::Path::new(path).is_absolute()
}

/// `std::path::Path::join`. How paths join depends on the system. What is
/// stated is what holds on every one: a path without root or drive is added to
/// the directory, behind a separator unless that is empty, ends with one or is
/// a bare drive; one with a root replaces it but for its drive or share; one
/// with a drive replaces it where there are drives. A directory in verbatim
/// form stays so unless a path with a root or a drive replaces it, and the last
/// name of the path comes last; how the rest is normalised is left unsaid.
#[verifier::external_body]
fn join(dir: &str, path: &str) -> (joined: String)
    ensures
        can_join_to(joined@, dir@, path@),
{
    std::path::Path::new(dir).join(path).to_string_lossy().into_owned()
}

/// The program that a configured launcher path stands for, given whether it is
/// absolute and what it is within the current directory, if that is known.
pub fn chosen_program(path: String, absolute: bool, within: Option<String>) -> (program: String)
    ensures
        program@ == if !absolute && within is Some {
            within->0@
        } else {
            path@
        },
{
    if absolute {
        path
    } else {
        match within {
            Some(within) => within,
            None => path,
        }
    }
}

/// Whether `path` begins with a drive letter.
pub open spec fn has_drive_letter(path: Seq<char>) -> bool {
    path.len() >= 2 && path[1] == ':' && ('A' <= path[0] <= 'Z' || 'a' <= path[0] <= 'z')
}

/// Whether `path` begins with two backslashes, the name of a server, which ends
/// at `at`, and the name of a share.
pub open spec fn names_share_at(path: Seq<char>, at: int) -> bool {
    &&& path.len() > 2 && path[0] == '\\' && path[1] == '\\'
    &&& 2 < at < path.len() - 1
    &&& forall|i: int| 2 <= i < at ==> !is_separator(#[trigger] path[i])
    &&& is_separator(path[at])
    &&& !is_separator(path[at + 1])
}

/// Whether `path` replaces every directory wherever there are drives: it begins
/// with a drive letter or with a server and a share.
pub open spec fn has_volume(path: Seq<char>) -> bool {
    has_drive_letter(path) || exists|at: int| names_share_at(path, at)
}

/// What `path` stands for in `dir`, where the way in which `dir` is written
/// settles it. A directory that begins with a slash is absolute on systems
/// without drives only: there a path that begins with a slash is absolute too,
/// and any other is behind the directory and a slash. One that begins with a
/// drive and a separator, or with two backslashes, is absolute on systems with
/// drives only: there a path with a drive or a share of its own is kept, and
/// one with a root alone is on the directory's drive, if it has one.
pub open spec fn settled_program(dir: Seq<char>, path: Seq<char>) -> Option<Seq<char>> {
    if dir.len() > 0 && dir[0] == '/' {
        if path.len() > 0 && path[0] == '/' {
            Some(path)
        } else if dir.last() == '/' {
            Some(dir + path)
        } else {
            Some(dir + seq!['/'] + path)
        }
    } else if dir.len() > 2 && dir[0] == '\\' && dir[1] == '\\' {
        if has_volume(path) {
            Some(path)
        } else {
            None
        }
    } else if has_drive_letter(dir) && dir.len() > 2 && is_separator(dir[2]) {
        if has_volume(path) {
            Some(path)
        } else if path.len() > 0 && is_separator(path[0]) && !has_share(path) {
            Some(dir.take(2) + path)
        } else {
            None
        }
    } else {
        None
    }
}

/// Whether `c` separates the parts of a path on some system.
fn is_separating(c: char) -> (separates: bool)
    ensures
        separates == is_separator(c),
{
    c == '/' || c == '\\'
}

/// Whether `path` begins with a drive letter.
fn begins_with_drive(path: &Vec<char>) -> (found: bool)
    ensures
        found == has_drive_letter(path@),
{
    path.len() >= 2 && path[1] == ':' && (('A' <= path[0] && path[0] <= 'Z') || ('a' <= path[0]
        && path[0] <= 'z'))
}

/// Whether `path` begins with a drive letter or with a server and a share.
fn begins_with_volume(path: &Vec<char>) -> (found: bool)
    ensures
        found == has_volume(path@),
{
    if begins_with_drive(path) {
        return true;
    }
    if !(path.len() > 2 && path[0] == '\\' && path[1] == '\\') {
        return false;
    }
    let mut end: usize = 2;
    while end < path.len() && !is_separating(path[end])
        invariant
            2 <= end <= path@.len(),
            forall|i: int| 2 <= i < end ==> !is_separator(#[trigger] path@[i]),
        decreases path@.len() - end,
    {
        end = end + 1;
    }
    let found: bool = 2 < end && end < path.len() - 1 && !is_separating(path[end + 1]);
    proof {
        if found {
            assert(names_share_at(path@, end as int));
        }
        assert forall|at: int| names_share_at(path@, at) implies at == end by {
            if at < end {
                assert(!is_separator(path@[at]));
            }
            if end < at {
                assert(!is_separator(path@[end as int]));
            }
        }
    }
    found
}

/// What `path` stands for in `dir`, where the way in which `dir` is written
/// settles it.
fn settle_program(dir: &str, path: &str) -> (program: Option<String>)
    ensures
        optional_text(program) == settled_program(dir@, path@),
{
    let dir_chars: Vec<char> = chars_of(dir);
    let path_chars: Vec<char> = chars_of(path);
    let rooted: bool = path_chars.len() > 0 && is_separating(path_chars[0]);
    if dir_chars.len() > 0 && dir_chars[0] == '/' {
        if rooted && path_chars[0] == '/' {
            Some(path.to_owned())
        } else {
            let mut program: String = dir.to_owned();
            if dir_chars[dir_chars.len() - 1] != '/' {
                program.push('/');
                assert(program@ =~= dir@ + seq!['/']);
            }
            program.append(path);
            Some(program)
        }
    } else if dir_chars.len() > 2 && dir_chars[0] == '\\' && dir_chars[1] == '\\' {
        if begins_with_volume(&path_chars) {
            Some(path.to_owned())
        } else {
            None
        }
    } else if begins_with_drive(&dir_chars) && dir_chars.len() > 2 && is_separating(dir_chars[2]) {
        if begins_with_volume(&path_chars) {
            Some(path.to_owned())
        } else if rooted && !(path_chars.len() >= 2 && is_separating(path_chars[1])) {
            let mut program: String = string_between(&dir_chars, 0, 2);
            program.append(path);
            assert(dir@.take(2) =~= dir@.subrange(0, 2));
            Some(program)
        } else {
            None
        }
    } else {
        None
    }
}

/// What holds of the program that a configured launcher path stands for: it is
/// the path itself where there is no current directory, what that directory
/// settles where it does, and otherwise, whatever the system takes for
/// absolute, the path itself or what joining the two gives.
pub open spec fn stands_for(program: Seq<char>, path: Seq<char>, cwd: Option<Seq<char>>) -> bool {
    match cwd {
        None => program == path,
        Some(dir) => match settled_program(dir, path) {
            Some(settled) => program == settled,
            None => {
                ||| may_be_absolute(path) && program == path
                ||| can_join_to(program, dir, path)
            },
        },
    }
}

/// The program that a configured launcher path stands for. A relative path is
/// taken from `cwd`, the directory that the shell itself was started in: the
/// child runs in another, against which the system would resolve it.
pub fn resolve_program(path: String, cwd: Option<String>) -> (program: String)
    ensures
        stands_for(program@, path@, optional_text(cwd)),
{
    let within: Option<String> = match cwd {
        Some(dir) => {
            if let Some(settled) = settle_program(dir.as_str(), path.as_str()) {
                return settled;
            }
            Some(join(dir.as_str(), path.as_str()))
        },
        None => None,
    };
    let absolute: bool = is_absolute(path.as_str());
    chosen_program(path, absolute, within)
}

/// How `dsh` is run, and what is said to have been attempted if that fails.
pub struct DshCommand<R> {
    /// What is run.
    pub program: Program<R>,
    /// The arguments that come before those of a profile.
    pub args: Vec<String>,
    /// What was attempted.
    pub attempted: String,
    /// Whether `dsh` leads a process group of its own: what it starts itself is
    /// then reached with it when it is stopped.
    pub own_group: bool,
    /// Whether `dsh` is kept from opening a console window: what runs it on
    /// Windows would.
    pub no_window: bool,
}

/// Whether `dsh` leads a process group of its own.
pub open spec fn leads_group(platform: Platform) -> bool {
    platform == Platform::Unix
}

/// Whether `dsh` is kept from opening a console window.
pub open spec fn hides_window(platform: Platform) -> bool {
    platform == Platform::Windows
}

/// What is said to have been attempted with a configured launcher.
pub open spec fn configured_text(shown: Seq<char>) -> Seq<char> {
    "DSH_CLI_PATH="@ + shown
}

/// The configured launcher: `shown` as it was configured, `program` as it was
/// resolved.
pub fn configured_command<R>(
    platform: Platform,
    shown: &str,
    program: Program<R>,
) -> (dsh: DshCommand<R>)
    ensures
        dsh.own_group == leads_group(platform),
        dsh.no_window == hides_window(platform),
        dsh.program == program,
        dsh.args@.len() == 0,
        dsh.attempted@ == configured_text(shown@),
{
    let mut attempted: String = "DSH_CLI_PATH=".to_owned();
    attempted.append(shown);
    DshCommand {
        program,
        args: Vec::new(),
        attempted,
        own_group: platform == Platform::Unix,
        no_window: platform == Platform::Windows,
    }
}

/// The program that finds `dsh` on `PATH`.
pub open spec fn path_program(platform: Platform) -> Seq<char> {
    if platform == Platform::Windows {
        "cmd"@
    } else {
        "dsh"@
    }
}

/// The arguments with which that program does so.
pub open spec fn path_args(platform: Platform) -> Seq<Seq<char>> {
    if platform == Platform::Windows {
        seq!["/C"@, "dsh"@]
    } else {
        seq![]
    }
}

/// The `dsh` on `PATH`. On Windows that is commonly a `dsh.cmd`, which only
/// `cmd` itself finds under the bare name.
pub fn path_command<R>(platform: Platform) -> (dsh: DshCommand<R>)
    ensures
        is_program(dsh.program, path_program(platform)),
        crate::command::texts(dsh.args@) == path_args(platform),
        dsh.attempted@ == "`dsh` on PATH"@,
        dsh.own_group == leads_group(platform),
        dsh.no_window == hides_window(platform),
{
    let mut args: Vec<String> = Vec::new();
    let program: String = match platform {
        Platform::Windows => {
            push_arg(&mut args, "/C");
            push_arg(&mut args, "dsh");
            "cmd".to_owned()
        },
        Platform::Unix => "dsh".to_owned(),
    };
    assert(crate::command::texts(args@) =~= path_args(platform));
    DshCommand {
        program: Program::Text(program),
        args,
        attempted: "`dsh` on PATH".to_owned(),
        own_group: platform == Platform::Unix,
        no_window: platform == Platform::Windows,
    }
}

/// The arguments of the launcher itself.
pub open spec fn launcher_args<R>(platform: Platform, cli_path: Setting<R>) -> Seq<Seq<char>> {
    if cli_path is Unset {
        path_args(platform)
    } else {
        seq![]
    }
}

/// What holds of the program and of the words for the attempt, for each way in
/// which the launcher can be configured.
pub open spec fn is_dsh_command<R>(
    program: Program<R>,
    attempted: Seq<char>,
    platform: Platform,
    cli_path: Setting<R>,
    cwd: Option<Seq<char>>,
) -> bool {
    match cli_path {
        Setting::Text(path) => {
            &&& program matches Program::Text(program) && stands_for(program@, path@, cwd)
            &&& attempted == configured_text(path@)
        },
        Setting::Raw { value, shown } => {
            &&& program == Program::RawWithin(value)
            &&& attempted == configured_text(shown@)
        },
        Setting::Unset => {
            &&& is_program(program, path_program(platform))
            &&& attempted == "`dsh` on PATH"@
        },
    }
}

/// Locates the `dsh` launcher: the configured one if that is set, to whatever
/// value, and then nothing else is tried; otherwise the one on `PATH`.
pub fn dsh_command<R>(
    platform: Platform,
    cli_path: Setting<R>,
    cwd: Option<String>,
) -> (dsh: DshCommand<R>)
    ensures
        is_dsh_command(dsh.program, dsh.attempted@, platform, cli_path, optional_text(cwd)),
        crate::command::texts(dsh.args@) == launcher_args(platform, cli_path),
        dsh.own_group == leads_group(platform),
        dsh.no_window == hides_window(platform),
{
    let dsh: DshCommand<R> = match cli_path {
        Setting::Text(path) => {
            let program: String = resolve_program(path.clone(), cwd);
            configured_command(platform, path.as_str(), Program::Text(program))
        },
        Setting::Raw { value, shown } => configured_command(
            platform,
            shown.as_str(),
            Program::RawWithin(value),
        ),
        Setting::Unset => path_command(platform),
    };
    assert(crate::command::texts(dsh.args@) =~= launcher_args(platform, cli_path));
    dsh
}

/// The launch of the web profile by `dsh`, in `directory`: bound to
/// [`WEB_HOST`] and `port`, with both output streams piped, since the URL is
/// announced on one and the cause of a failure given on the other.
pub fn web_launch<R>(dsh: DshCommand<R>, port: &str, directory: Setting<R>) -> (launch: (
    WebLaunch<R>,
    String,
))
    ensures
        launch.0.program == dsh.program,
        crate::command::texts(launch.0.args@) == crate::command::texts(dsh.args@) + web_args(
            WEB_HOST@,
            port@,
        ),
        launch.0.directory == directory,
        launch.0.own_group == dsh.own_group,
        launch.0.no_window == dsh.no_window,
        launch.0.stdin == Stream::Null,
        launch.0.stdout == Stream::Piped,
        launch.0.stderr == Stream::Piped,
        launch.1 == dsh.attempted,
{
    let mut args: Vec<String> = dsh.args;
    add_web_args(&mut args, WEB_HOST, port);
    let launch = WebLaunch {
        program: dsh.program,
        args,
        directory,
        own_group: dsh.own_group,
        no_window: dsh.no_window,
        stdin: Stream::Null,
        stdout: Stream::Piped,
        stderr: Stream::Piped,
    };
    (launch, dsh.attempted)
}

/// The desktop shell's launch of `dsh --profile web`, and what is said to have
/// been attempted if it fails.
pub fn spawn_web_profile<R>(
    platform: Platform,
    port: &str,
    cli_path: Setting<R>,
    cwd: Option<String>,
    workspace: Setting<R>,
    home: Setting<R>,
) -> (launch: (WebLaunch<R>, String))
    ensures
        is_dsh_command(launch.0.program, launch.1@, platform, cli_path, optional_text(cwd)),
        crate::command::texts(launch.0.args@) == launcher_args(platform, cli_path) + web_args(
            WEB_HOST@,
            port@,
        ),
        launch.0.directory == if workspace is Unset {
            home
        } else {
            workspace
        },
        launch.0.own_group == leads_group(platform),
        launch.0.no_window == hides_window(platform),
        launch.0.stdin == Stream::Null,
        launch.0.stdout == Stream::Piped,
        launch.0.stderr == Stream::Piped,
{
    let dsh: DshCommand<R> = dsh_command(platform, cli_path, cwd);
    let directory: Setting<R> = workspace_dir(workspace, home);
    web_launch(dsh, port, directory)
}

/// A configured launcher is the only one tried, whatever it is configured to:
/// neither the `dsh` on `PATH` nor what is said of it comes out, and what is
/// said to have been attempted is the value as it was configured.
pub proof fn law_configured_launcher_is_the_only_one_tried<R>(
    program: Program<R>,
    attempted: Seq<char>,
    platform: Platform,
    cli_path: Setting<R>,
    cwd: Option<Seq<char>>,
)
    requires
        is_dsh_command(program, attempted, platform, cli_path, cwd),
        !(cli_path is Unset),
    ensures
        attempted != "`dsh` on PATH"@,
        attempted == "DSH_CLI_PATH="@ + match cli_path {
            Setting::Text(path) => path@,
            Setting::Raw { shown, .. } => shown@,
            Setting::Unset => seq![],
        },
        launcher_args(platform, cli_path).len() == 0,
        match cli_path {
            Setting::Text(path) => program matches Program::Text(program) && stands_for(
                program@,
                path@,
                cwd,
            ),
            Setting::Raw { value, .. } => program == Program::RawWithin(value),
            Setting::Unset => false,
        },
{
    reveal_strlit("DSH_CLI_PATH=");
    reveal_strlit("`dsh` on PATH");
    assert(attempted[0] == 'D');
}

/// On every system, a path that begins with a slash is run as it is from any
/// directory without a drive or a share, and one that begins with neither a
/// separator nor a drive is run from within the directory: added to it, or, in
/// a directory in verbatim form, somewhere in verbatim form and so never as it
/// is.
pub proof fn law_launcher_path_is_kept_or_found_in_directory(
    program: Seq<char>,
    path: Seq<char>,
    dir: Seq<char>,
)
    requires
        stands_for(program, path, Some(dir)),
    ensures
        path.len() > 0 && path[0] == '/' && !has_drive(dir) && !has_share(dir) ==> program == path,
        is_plainly_relative(path) && !is_verbatim(dir) ==> is_added(program, dir, path),
        is_plainly_relative(path) && is_verbatim(dir) ==> is_verbatim(program) && program != path,
{
    reveal_strlit("\\\\?\\");
    if is_verbatim(dir) {
        assert(dir[0] == "\\\\?\\"@[0] && dir[1] == "\\\\?\\"@[1]);
    }
    if is_verbatim(program) {
        assert(program[0] == "\\\\?\\"@[0]);
    }
}

/// What stops the child reaches it: wherever a termination signals the child's
/// process group, the launch has made the child lead one of its own.
pub proof fn law_signalled_group_is_the_childs_own(
    platform: Platform,
    pid: u32,
    signal: Seq<char>,
    replies: spec_fn(crate::terminate::TerminatePhase) -> crate::terminate::TerminateReply,
)
    requires
        crate::terminate::actions_from(
            crate::terminate::TerminatePhase::Poll,
            platform,
            pid,
            replies,
        ).contains(
            crate::terminate::ActionText::Run(crate::terminate::kill_group_text(signal, pid)),
        ),
    ensures
        leads_group(platform),
{
    if platform == Platform::Windows {
        let poll = replies(crate::terminate::TerminatePhase::Poll);
        if poll == crate::terminate::TerminateReply::Polled(
            crate::terminate::ChildPoll::Running,
        ) {
            crate::terminate::law_windows_termination(pid, replies);
        } else {
            crate::terminate::law_exited_child_is_not_signalled(platform, pid, replies);
        }
        reveal_strlit("kill");
        reveal_strlit("taskkill");
        assert("kill"@.len() != "taskkill"@.len());
    }
}

/// What `dsh web` was asked to bind is what its announcement is held to: the
/// URL that is accepted for a fixed port begins with the very host and port of
/// the launch's arguments.
pub proof fn law_accepted_url_is_what_was_asked_for(line: Seq<char>, port: Seq<char>)
    requires
        crate::ready::announced_url(line, port) is Some,
        port != "0"@,
    ensures
        ({
            let args = web_args(WEB_HOST@, port);
            let url = crate::ready::announced_url(line, port)->0;
            &&& args[2] == "--host"@
            &&& args[4] == "--port"@
            &&& ("http://"@ + args[3] + ":"@ + args[5]).is_prefix_of(url)
        }),
{
    crate::ready::law_recognised_url_is_own_server(line, port);
}

/// The last part of a path comes last.
proof fn lemma_last_part_comes_last(path: Seq<char>)
    ensures
        last_part(path).is_suffix_of(path),
    decreases path.len(),
{
    if path.len() > 0 && !is_separator(path.last()) {
        lemma_last_part_comes_last(path.drop_last());
        let shorter = last_part(path.drop_last());
        assert(shorter =~= path.drop_last().subrange(
            path.drop_last().len() - shorter.len(),
            path.drop_last().len() as int,
        ));
        assert(last_part(path) =~= path.subrange(
            path.len() - last_part(path).len(),
            path.len() as int,
        ));
    }
}

/// What is settled by the directory alone is nothing that joining would not
/// give on some system.
pub proof fn law_settled_program_is_a_join(dir: Seq<char>, path: Seq<char>)
    requires
        settled_program(dir, path) is Some,
    ensures
        can_join_to(settled_program(dir, path)->0, dir, path),
{
    reveal_strlit("\\\\?\\");
    if is_verbatim(dir) {
        assert(dir[0] == "\\\\?\\"@[0] && dir[1] == "\\\\?\\"@[1]);
        lemma_last_part_comes_last(path);
    }
}

/// In a directory that begins with a slash, a path that begins with one is run
/// as it is, and any other is run from within the directory, behind exactly one
/// slash and never a backslash.
pub proof fn law_launcher_is_found_behind_a_slash(
    program: Seq<char>,
    path: Seq<char>,
    dir: Seq<char>,
)
    requires
        stands_for(program, path, Some(dir)),
        dir.len() > 0,
        dir[0] == '/',
    ensures
        path.len() > 0 && path[0] == '/' ==> program == path,
        !(path.len() > 0 && path[0] == '/') && dir.last() == '/' ==> program == dir + path,
        !(path.len() > 0 && path[0] == '/') && dir.last() != '/' ==> program == dir + "/"@ + path,
{
    reveal_strlit("/");
    assert("/"@ =~= seq!['/']);
}

/// In a directory on a drive, a path with a drive of its own is run as it is,
/// and one that begins with a single separator is run from the root of the
/// directory's drive.
pub proof fn law_launcher_is_found_on_its_drive(
    program: Seq<char>,
    path: Seq<char>,
    letter: char,
    separator: char,
    rest: Seq<char>,
)
    requires
        'A' <= letter <= 'Z' || 'a' <= letter <= 'z',
        separator == '\\' || separator == '/',
        stands_for(program, path, Some(seq![letter, ':', separator] + rest)),
    ensures
        path.len() >= 2 && path[1] == ':' && ('A' <= path[0] <= 'Z' || 'a' <= path[0] <= 'z')
            ==> program == path,
        path.len() > 0 && (path[0] == '/' || path[0] == '\\') && (path.len() == 1 || (path[1] != '/'
            && path[1] != '\\')) ==> program == seq![letter, ':'] + path,
{
    let dir = seq![letter, ':', separator] + rest;
    assert(dir[0] == letter && dir[1] == ':' && dir[2] == separator);
    assert(dir.take(2) =~= seq![letter, ':']);
}

/// In a directory on a drive or on a share, a path that names a share of its
/// own is run as it is.
pub proof fn law_launcher_on_a_share_is_kept(
    program: Seq<char>,
    dir: Seq<char>,
    server: Seq<char>,
    share: Seq<char>,
)
    requires
        stands_for(program, seq!['\\', '\\'] + server + seq!['\\'] + share, Some(dir)),
        dir.len() > 2,
        (dir[0] == '\\' && dir[1] == '\\') || (('A' <= dir[0] <= 'Z' || 'a' <= dir[0] <= 'z')
            && dir[1] == ':' && dir[2] == '\\'),
        server.len() > 0,
        forall|i: int| 0 <= i < server.len() ==> #[trigger] server[i] != '/' && server[i] != '\\',
        share.len() > 0,
        share[0] != '/' && share[0] != '\\',
    ensures
        program == seq!['\\', '\\'] + server + seq!['\\'] + share,
{
    let path = seq!['\\', '\\'] + server + seq!['\\'] + share;
    let at = 2 + server.len() as int;
    assert(path[0] == '\\' && path[1] == '\\' && path[at] == '\\' && path[at + 1] == share[0]);
    assert forall|i: int| 2 <= i < at implies !is_separator(#[trigger] path[i]) by {
        assert(path[i] == server[i - 2]);
    }
    assert(names_share_at(path, at));
}

/// Without a current directory a path is run as it is, whatever it is.
pub proof fn law_launcher_is_kept_without_directory(program: Seq<char>, path: Seq<char>)
    requires
        stands_for(program, path, None),
    ensures
        program == path,
{
}

/// In a directory on a network share or a device, a path with a drive of its
/// own is run as it is.
pub proof fn law_launcher_on_a_drive_is_kept_on_a_share(
    program: Seq<char>,
    path: Seq<char>,
    share: Seq<char>,
)
    requires
        stands_for(program, path, Some(seq!['\\', '\\'] + share)),
        share.len() > 0,
        path.len() >= 2,
        path[1] == ':',
        'A' <= path[0] <= 'Z' || 'a' <= path[0] <= 'z',
    ensures
        program == path,
{
    let dir = seq!['\\', '\\'] + share;
    assert(dir[0] == '\\' && dir[1] == '\\');
}

/// In any directory that is not in verbatim form, a path that begins with
/// neither a separator nor a drive is run from within the directory: the
/// directory comes first, whole, the path last, whole, and between them there
/// is nothing but a separator, which is left out only where the directory needs
/// none.
pub proof fn law_relative_launcher_is_found_in_directory(
    program: Seq<char>,
    path: Seq<char>,
    dir: Seq<char>,
)
    requires
        stands_for(program, path, Some(dir)),
        !(path.len() > 0 && (path[0] == '/' || path[0] == '\\')),
        !(path.len() >= 2 && path[1] == ':'),
        !"\\\\?\\"@.is_prefix_of(dir),
    ensures
        ({
            ||| program == dir + seq!['/'] + path && dir.len() > 0
            ||| program == dir + seq!['\\'] + path && dir.len() > 0
            ||| program == dir + path && (dir.len() == 0 || dir.last() == '/' || dir.last() == '\\'
                || (dir.len() == 2 && dir[1] == ':'))
        }),
{
}

/// `dsh` leads a process group of its own on Unix, where its group is what gets
/// stopped, and is kept from opening a console window on Windows, which would.
pub proof fn law_group_and_window_go_by_the_system(platform: Platform)
    ensures
        leads_group(platform) == (platform == Platform::Unix),
        hides_window(platform) == (platform == Platform::Windows),
{
}

/// Where no launcher is configured it is the `dsh` on `PATH` that is run, and
/// that is said to have been attempted: by its name, and on Windows through
/// `cmd`, with the name as the one command it is given.
pub proof fn law_dsh_on_path_is_run_by_its_name<R>(
    program: Program<R>,
    attempted: Seq<char>,
    platform: Platform,
    cli_path: Setting<R>,
    cwd: Option<Seq<char>>,
)
    requires
        is_dsh_command(program, attempted, platform, cli_path, cwd),
        cli_path is Unset,
    ensures
        attempted == "`dsh` on PATH"@,
        program matches Program::Text(name) && match platform {
            Platform::Unix => name@ == "dsh"@ && launcher_args(platform, cli_path).len() == 0,
            Platform::Windows => name@ == "cmd"@ && launcher_args(platform, cli_path) == seq![
                "/C"@,
                "dsh"@,
            ],
        },
{
}

/// A string that may be missing is missing, or has its characters.
pub proof fn law_optional_text_is_the_text(s: Option<String>)
    ensures
        match s {
            Some(s) => optional_text(Some(s)) == Some(s@),
            None => optional_text(s) is None,
        },
{
}

/// What `dsh` is asked for on its command line.
pub struct WebOptions {
    /// The profile, if one is asked for.
    pub profile: Option<Seq<char>>,
    /// The host to bind, if one is asked for.
    pub host: Option<Seq<char>>,
    /// The port to bind, if one is asked for.
    pub port: Option<Seq<char>>,
    /// Whether `dsh` is kept from opening a browser.
    pub no_open: bool,
}

/// The reader of a command line: `--no-open` stands alone, the other three
/// options are followed by their values. Nothing is read where there is
/// anything else, or where an option is given twice.
pub open spec fn options_read(args: Seq<Seq<char>>) -> Option<WebOptions>
    decreases args.len(),
{
    if args.len() == 0 {
        Some(WebOptions { profile: None, host: None, port: None, no_open: false })
    } else if args[0] == "--no-open"@ {
        match options_read(args.skip(1)) {
            Some(more) if !more.no_open => Some(WebOptions { no_open: true, ..more }),
            _ => None,
        }
    } else if args.len() == 1 {
        None
    } else {
        match options_read(args.skip(2)) {
            Some(more) => if args[0] == "--profile"@ && more.profile is None {
                Some(WebOptions { profile: Some(args[1]), ..more })
            } else if args[0] == "--host"@ && more.host is None {
                Some(WebOptions { host: Some(args[1]), ..more })
            } else if args[0] == "--port"@ && more.port is None {
                Some(WebOptions { port: Some(args[1]), ..more })
            } else {
                None
            },
            None => None,
        }
    }
}

/// `dsh` is asked for its web profile at the very host and port that are given,
/// whatever they are, for nothing else, and not to open a browser.
pub proof fn law_web_profile_is_asked_for(host: Seq<char>, port: Seq<char>)
    ensures
        options_read(web_args(host, port)) == Some(
            WebOptions {
                profile: Some("web"@),
                host: Some(host),
                port: Some(port),
                no_open: true,
            },
        ),
{
    reveal_strlit("--profile");
    reveal_strlit("--host");
    reveal_strlit("--port");
    reveal_strlit("--no-open");
    assert("--profile"@[2] == 'p' && "--no-open"@[2] == 'n');
    assert("--host"@[2] == 'h' && "--port"@[2] == 'p');
    assert("--port"@.len() == 6 && "--profile"@.len() == 9);
    let args = web_args(host, port);
    let after_profile = seq!["--host"@, host, "--port"@, port, "--no-open"@];
    let after_host = seq!["--port"@, port, "--no-open"@];
    let after_port = seq!["--no-open"@];
    assert(args.skip(2) =~= after_profile);
    assert(after_profile.skip(2) =~= after_host);
    assert(after_host.skip(2) =~= after_port);
    assert(after_port.skip(1) =~= seq![]);
    assert(options_read(after_port.skip(1)) is Some);
    assert(options_read(after_port) matches Some(read) && read.no_open && read.port is None);
    assert(options_read(after_host) matches Some(read) && read.port == Some(port));
    assert(options_read(after_profile) matches Some(read) && read.host == Some(host));
}

} // verus!
