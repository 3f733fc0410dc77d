use dsh_shell::command::Platform;
use dsh_shell::launch::{
    chosen_program, dsh_command, home_variable, resolve_program, spawn_web_profile, web_port,
    workspace_dir, Program, Setting, Stream,
};
use dsh_shell::text::{decimal, is_blank, is_whitespace};
use dsh_shell::tray::{
    launch_failure_message, menu_action, open_in_browser, shutdown, web_host, MenuAction,
    WebProfile,
};

fn text(s: &str) -> Option<String> {
    Some(s.to_string())
}

/// A setting whose raw value, where it is not Unicode, is a few bytes.
fn set(s: &str) -> Setting<Vec<u8>> {
    Setting::Text(s.to_string())
}

fn unset() -> Setting<Vec<u8>> {
    Setting::Unset
}

fn raw() -> Setting<Vec<u8>> {
    Setting::Raw { value: b"/opt/d\xffsh".to_vec(), shown: "/opt/d\u{fffd}sh".to_string() }
}

fn program(program: &Program<Vec<u8>>) -> &str {
    match program {
        Program::Text(program) => program,
        _ => panic!("the program is text"),
    }
}

fn dir(setting: &Setting<Vec<u8>>) -> Option<&str> {
    match setting {
        Setting::Text(dir) => Some(dir),
        Setting::Unset => None,
        Setting::Raw { .. } => panic!("the directory is text"),
    }
}

#[test]
fn dsh_is_found_on_path() {
    let unix = dsh_command(Platform::Unix, unset(), text("/work"));
    assert_eq!(program(&unix.program), "dsh");
    assert!(unix.args.is_empty());
    assert_eq!(unix.attempted, "`dsh` on PATH");
    assert!(unix.own_group && !unix.no_window);
    let windows = dsh_command(Platform::Windows, unset(), None);
    assert_eq!(program(&windows.program), "cmd");
    assert_eq!(windows.args, vec!["/C", "dsh"]);
    assert_eq!(windows.attempted, "`dsh` on PATH");
    assert!(!windows.own_group && windows.no_window);
}

#[test]
fn a_configured_launcher_is_the_only_one_tried() {
    for platform in [Platform::Unix, Platform::Windows] {
        let dsh = dsh_command(platform, set("./node_modules/.bin/dsh"), text("/work"));
        assert!(dsh.args.is_empty());
        assert_eq!(dsh.attempted, "DSH_CLI_PATH=./node_modules/.bin/dsh");
        assert!(program(&dsh.program).starts_with("/work"));
        assert!(program(&dsh.program).ends_with("./node_modules/.bin/dsh"));
    }
}

#[test]
fn a_launcher_that_is_not_unicode_is_the_only_one_tried() {
    for platform in [Platform::Unix, Platform::Windows] {
        let dsh = dsh_command(platform, raw(), text("/work"));
        assert!(matches!(dsh.program, Program::RawWithin(value) if value == b"/opt/d\xffsh"));
        assert!(dsh.args.is_empty());
        assert_eq!(dsh.attempted, "DSH_CLI_PATH=/opt/d\u{fffd}sh");
    }
    let (launch, attempted) =
        spawn_web_profile(Platform::Windows, "5175", raw(), None, raw(), set("/home/u"));
    assert!(matches!(launch.program, Program::RawWithin(_)));
    assert_eq!(
        launch.args,
        vec!["--profile", "web", "--host", "127.0.0.1", "--port", "5175", "--no-open"]
    );
    assert!(matches!(launch.directory, Setting::Raw { .. }));
    assert_eq!(attempted, "DSH_CLI_PATH=/opt/d\u{fffd}sh");
    assert!(matches!(dsh_shell::tray::dsh_command(raw()), Program::Raw(_)));
}

#[test]
fn a_relative_launcher_is_taken_from_the_current_directory() {
    let within = std::path::Path::new("/work").join("bin/dsh");
    assert_eq!(
        resolve_program("bin/dsh".to_string(), text("/work")),
        within.to_string_lossy().into_owned()
    );
    let resolved = resolve_program("bin/dsh".to_string(), text("/work/"));
    assert_eq!(resolved, "/work/bin/dsh");
    assert_eq!(resolve_program("bin/dsh".to_string(), text("")), "bin/dsh");
    assert_eq!(resolve_program("bin/dsh".to_string(), None), "bin/dsh");
}

#[test]
fn an_absolute_launcher_is_left_alone() {
    assert_eq!(resolve_program("/opt/dsh".to_string(), text("/work")), "/opt/dsh");
    assert_eq!(resolve_program("/opt/dsh".to_string(), text("/")), "/opt/dsh");
    assert_eq!(resolve_program("/opt/dsh".to_string(), None), "/opt/dsh");
    assert_eq!(chosen_program("p".to_string(), true, text("d/p")), "p");
    assert_eq!(chosen_program("p".to_string(), false, text("d/p")), "d/p");
    assert_eq!(chosen_program("p".to_string(), false, None), "p");
    assert_eq!(chosen_program("p".to_string(), true, None), "p");
}

#[test]
fn the_workspace_is_the_configured_one_or_home() {
    assert_eq!(dir(&workspace_dir(set("/w"), set("/home/u"))), Some("/w"));
    assert_eq!(dir(&workspace_dir(unset(), set("/home/u"))), Some("/home/u"));
    assert_eq!(dir(&workspace_dir(set("/w"), unset())), Some("/w"));
    assert_eq!(dir(&workspace_dir(unset(), unset())), None);
    assert!(matches!(workspace_dir(raw(), set("/home/u")), Setting::Raw { .. }));
    assert!(matches!(workspace_dir(unset(), raw()), Setting::Raw { .. }));
    assert_eq!(home_variable(Platform::Windows), "USERPROFILE");
    assert_eq!(home_variable(Platform::Unix), "HOME");
}

#[test]
fn the_desktop_launches_the_web_profile() {
    let home = set("C:\\Users\\u");
    let (launch, attempted) =
        spawn_web_profile(Platform::Windows, "5175", unset(), None, unset(), home);
    assert_eq!(program(&launch.program), "cmd");
    assert_eq!(
        launch.args,
        vec![
            "/C", "dsh", "--profile", "web", "--host", "127.0.0.1", "--port", "5175", "--no-open"
        ]
    );
    assert_eq!(dir(&launch.directory), Some("C:\\Users\\u"));
    assert_eq!(attempted, "`dsh` on PATH");
    assert!(!launch.own_group && launch.no_window);
    assert_eq!(launch.stdin, Stream::Null);
    assert_eq!(launch.stdout, Stream::Piped);
    assert_eq!(launch.stderr, Stream::Piped);

    let (launch, attempted) =
        spawn_web_profile(Platform::Unix, "0", set("dsh2"), None, set("/w"), set("/home/u"));
    assert_eq!(program(&launch.program), "dsh2");
    assert_eq!(
        launch.args,
        vec!["--profile", "web", "--host", "127.0.0.1", "--port", "0", "--no-open"]
    );
    assert_eq!(dir(&launch.directory), Some("/w"));
    assert_eq!(attempted, "DSH_CLI_PATH=dsh2");
    assert!(launch.own_group && !launch.no_window);
}

#[test]
fn what_is_asked_for_is_what_is_accepted() {
    let (launch, _) = spawn_web_profile(Platform::Unix, "8080", unset(), None, unset(), unset());
    let asked = format!("http://{}:{}", launch.args[3], launch.args[5]);
    let line = format!("dsh web: {asked}/?token=t");
    assert_eq!(
        dsh_shell::ready::parse_ready_url(&line, "8080"),
        Some(format!("{asked}/?token=t"))
    );
}

#[test]
fn port_and_host_have_defaults() {
    assert_eq!(web_port(None), "5175");
    assert_eq!(web_port(text("8080")), "8080");
    assert_eq!(web_host(None), "127.0.0.1");
    assert_eq!(web_host(text("0.0.0.0")), "0.0.0.0");
}

#[test]
fn the_tray_opens_what_it_launched() {
    let profile = WebProfile { host: "127.0.0.1".to_string(), port: "5175".to_string() };
    assert_eq!(profile.url(), "http://127.0.0.1:5175");
    let launch = dsh_shell::tray::spawn_web_profile(unset(), &profile);
    assert_eq!(program(&launch.program), "dsh");
    assert_eq!(
        launch.args,
        vec!["--profile", "web", "--host", "127.0.0.1", "--port", "5175", "--no-open"]
    );
    assert_eq!(dir(&launch.directory), None);
    assert!(!launch.own_group && !launch.no_window);
    assert_eq!(launch.stdin, Stream::Null);
    assert_eq!(launch.stdout, Stream::Null);
    assert_eq!(launch.stderr, Stream::Null);
    assert_eq!(program(&dsh_shell::tray::dsh_command(set("./dsh"))), "./dsh");
    let opened = open_in_browser(Platform::Unix, &profile.url());
    assert_eq!(opened.program, "xdg-open");
    assert!(!opened.no_window);
    assert_eq!(opened.args, vec!["http://127.0.0.1:5175"]);
    let opened = open_in_browser(Platform::Windows, &profile.url());
    assert_eq!(opened.program, "cmd");
    assert_eq!(opened.args, vec!["/C", "start", "", "http://127.0.0.1:5175"]);
}

#[test]
fn the_tray_menu_opens_and_quits() {
    assert_eq!(menu_action("open"), MenuAction::Open);
    assert_eq!(menu_action("quit"), MenuAction::Quit);
    assert_eq!(menu_action("other"), MenuAction::Ignore);
    assert_eq!(menu_action(""), MenuAction::Ignore);
    let mut child = Some(3);
    assert_eq!(shutdown(&mut child), Some(3));
    assert_eq!(shutdown(&mut child), None);
    assert_eq!(
        launch_failure_message("not found"),
        "failed to launch `dsh --profile web` (checked DSH_CLI_PATH, then PATH): not found"
    );
}

#[test]
fn white_space_is_unicode_white_space() {
    for n in 0..=0x10FFFF_u32 {
        if let Some(c) = char::from_u32(n) {
            assert_eq!(is_whitespace(c), c.is_whitespace());
        }
    }
    assert!(is_blank("") && is_blank(" \u{2003}\n") && !is_blank(" x "));
}

#[test]
fn numbers_are_written_in_decimal() {
    for n in [0, 1, 9, 10, 99, 100, 4021, 1_000_000, u32::MAX] {
        assert_eq!(decimal(n), n.to_string());
    }
}
