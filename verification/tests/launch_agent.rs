use openlogi_agent::launch_agent::{
    enablement_marker_path, escape_systemd_exec, exec_start_value, generated_unit_path,
    is_generated_unit, legacy_plist_paths, legacy_unit_path, reconcile, render_unit, run_command,
    same_executable, unescape_systemd_exec, xdg_config_home, xdg_data_home, ReconcileStep,
    SystemctlArgsDisplay, UNIT_NAME,
};
use openlogi_agent::paths::{extension_of, parent_of};
use openlogi_agent::text::join_path;

fn targets_agent_and_restarts() {
    let body = render_unit("/usr/bin/openlogi-agent");
    assert!(body.contains("ExecStart=/usr/bin/openlogi-agent"));
    assert!(body.contains("Restart=on-failure"));
    assert!(body.contains("WantedBy=graphical-session.target"));
    assert!(!body.contains("--minimized"));
}

#[test]
fn launch_agent_rendered_unit_targets_agent_and_restarts_on_failure() {
    targets_agent_and_restarts();
}

#[test]
fn linux_tests_rendered_unit_targets_agent_and_restarts_on_failure() {
    targets_agent_and_restarts();
}

fn has_all_three_sections() {
    let body = render_unit("/usr/bin/openlogi-agent");
    assert!(body.contains("[Unit]"));
    assert!(body.contains("[Service]"));
    assert!(body.contains("[Install]"));
}

#[test]
fn launch_agent_rendered_unit_is_valid_ini_with_all_three_sections() {
    has_all_three_sections();
}

#[test]
fn linux_tests_rendered_unit_is_valid_ini_with_all_three_sections() {
    has_all_three_sections();
}

#[test]
fn a_rendered_unit_reads_exactly_so() {
    assert_eq!(
        render_unit("/usr/bin/openlogi-agent"),
        "[Unit]\n\
        Description=OpenLogi background agent (Logitech HID++ device control)\n\
        After=graphical-session.target\n\
        \n\
        [Service]\n\
        Type=simple\n\
        ExecStart=/usr/bin/openlogi-agent\n\
        Restart=on-failure\n\
        RestartSec=5\n\
        \n\
        [Install]\n\
        WantedBy=graphical-session.target\n"
    );
}

#[test]
fn launch_agent_escape_systemd_exec_doubles_percent() {
    assert_eq!(
        escape_systemd_exec("/home/user%20/bin/openlogi-agent"),
        "/home/user%%20/bin/openlogi-agent"
    );
}

#[test]
fn linux_tests_escape_systemd_exec_doubles_percent() {
    assert_eq!(
        escape_systemd_exec("/home/user%20/bin/openlogi-agent"),
        "/home/user%%20/bin/openlogi-agent"
    );
}

#[test]
fn launch_agent_escape_systemd_exec_quotes_path_with_spaces() {
    let result = escape_systemd_exec("/home/my user/bin/openlogi-agent");
    assert_eq!(result, "\"/home/my user/bin/openlogi-agent\"");
}

#[test]
fn linux_tests_escape_systemd_exec_quotes_path_with_spaces() {
    let result = escape_systemd_exec("/home/my user/bin/openlogi-agent");
    assert_eq!(result, "\"/home/my user/bin/openlogi-agent\"");
}

#[test]
fn launch_agent_escape_systemd_exec_quotes_and_doubles_percent_with_spaces() {
    let result = escape_systemd_exec("/home/my%20 user/openlogi-agent");
    assert_eq!(result, "\"/home/my%%20 user/openlogi-agent\"");
}

#[test]
fn linux_tests_escape_systemd_exec_quotes_and_doubles_percent_with_spaces() {
    let result = escape_systemd_exec("/home/my%20 user/openlogi-agent");
    assert_eq!(result, "\"/home/my%%20 user/openlogi-agent\"");
}

#[test]
fn launch_agent_escape_systemd_exec_doubles_dollar() {
    assert_eq!(
        escape_systemd_exec("/opt/release$1/bin/openlogi-agent"),
        "/opt/release$$1/bin/openlogi-agent"
    );
}

#[test]
fn linux_tests_escape_systemd_exec_doubles_dollar() {
    assert_eq!(
        escape_systemd_exec("/opt/release$1/bin/openlogi-agent"),
        "/opt/release$$1/bin/openlogi-agent"
    );
}

#[test]
fn launch_agent_escape_systemd_exec_plain_path_unchanged() {
    let path = "/usr/local/bin/openlogi-agent";
    assert_eq!(escape_systemd_exec(path), path);
}

#[test]
fn linux_tests_escape_systemd_exec_plain_path_unchanged() {
    let path = "/usr/local/bin/openlogi-agent";
    assert_eq!(escape_systemd_exec(path), path);
}

#[test]
fn quotes_inside_a_spaced_path_are_escaped() {
    assert_eq!(escape_systemd_exec("/a \"b\""), "\"/a \\\"b\\\"\"");
}

#[test]
fn launch_agent_systemctl_arguments_render_as_a_command_suffix() {
    assert_eq!(
        SystemctlArgsDisplay(&["enable", UNIT_NAME]).to_text(),
        "enable openlogi-agent.service"
    );
}

#[test]
fn linux_tests_systemctl_arguments_render_as_a_command_suffix() {
    assert_eq!(
        SystemctlArgsDisplay(&["enable", UNIT_NAME]).to_text(),
        "enable openlogi-agent.service"
    );
}

fn data_home() -> String {
    xdg_data_home(None, Some("/home/user")).expect("data home resolves with a valid HOME")
}

fn config_home() -> String {
    xdg_config_home(None, Some("/home/user")).expect("config home resolves with a valid HOME")
}

#[test]
fn launch_agent_unit_path_uses_home_fallback() {
    let path = legacy_unit_path(&config_home());
    assert!(path.ends_with(UNIT_NAME));
    assert!(path.contains("systemd/user"));
    assert_eq!(
        path,
        "/home/user/.config/systemd/user/openlogi-agent.service"
    );
}

#[test]
fn linux_tests_unit_path_uses_home_fallback() {
    let path = generated_unit_path(&data_home());
    assert!(path.ends_with(UNIT_NAME));
    assert!(path.contains("systemd/user"));
}

#[test]
fn base_directories_prefer_an_absolute_variable() {
    assert_eq!(
        xdg_config_home(Some("/etc/xdg"), Some("/home/user")).as_deref(),
        Some("/etc/xdg")
    );
    assert_eq!(
        xdg_config_home(Some("relative"), Some("/home/user")).as_deref(),
        Some("/home/user/.config")
    );
    assert_eq!(xdg_config_home(Some("relative"), None), None);
    assert_eq!(
        xdg_data_home(None, Some("/home/user")).as_deref(),
        Some("/home/user/.local/share")
    );
}

#[test]
fn generated_unit_lives_below_the_user_config_tier() {
    let generated = generated_unit_path(&data_home());
    let legacy = legacy_unit_path(&config_home());
    let config_home = config_home();
    assert!(!generated.starts_with(&config_home), "{generated}");
    assert!(legacy.starts_with(&config_home), "{legacy}");
    assert_ne!(generated, legacy);
}

#[test]
fn a_rendered_unit_is_recognised_as_ours_for_any_executable() {
    for exe in [
        "/usr/bin/openlogi-agent",
        "/usr/local/bin/openlogi-agent",
        "/home/dev/OpenLogi/target/debug/openlogi-agent",
    ] {
        assert!(
            is_generated_unit(&render_unit(exe)),
            "{exe} should round-trip"
        );
    }
}

#[test]
fn a_rendered_unit_is_recognised_as_ours_when_the_path_needs_escaping() {
    for exe in [
        "/opt/100%/bin/openlogi-agent",
        "/opt/release$1/bin/openlogi-agent",
        "/home/a b/openlogi-agent",
    ] {
        assert!(
            is_generated_unit(&render_unit(exe)),
            "{exe} should round-trip"
        );
    }
}

#[test]
fn a_hand_edited_unit_is_not_ours() {
    let base = render_unit("/usr/bin/openlogi-agent");

    let with_extra = base.replace(
        "Restart=on-failure",
        "Environment=RUST_LOG=debug\nRestart=on-failure",
    );
    assert!(
        !is_generated_unit(&with_extra),
        "an added directive is theirs"
    );

    let changed = base.replace("RestartSec=5", "RestartSec=1");
    assert!(!is_generated_unit(&changed), "a changed value is theirs");

    let removed = base.replace("After=graphical-session.target\n", "");
    assert!(
        !is_generated_unit(&removed),
        "a dropped directive is theirs"
    );

    assert!(!is_generated_unit(""), "an empty file has no ExecStart");
    assert!(
        !is_generated_unit("[Service]\nExecStart=/bin/true\n"),
        "an unrelated unit is theirs"
    );
}

#[test]
fn a_unit_with_two_exec_starts_is_not_ours() {
    let doubled = render_unit("/usr/bin/openlogi-agent").replace(
        "Restart=on-failure",
        "ExecStart=/bin/true\nRestart=on-failure",
    );
    assert_eq!(exec_start_value(&doubled), None);
    assert!(!is_generated_unit(&doubled));
}

#[test]
fn exec_start_value_is_returned_still_escaped() {
    let unit = render_unit("/opt/100%/bin/openlogi-agent");
    assert_eq!(
        exec_start_value(&unit).as_deref(),
        Some("/opt/100%%/bin/openlogi-agent")
    );
}

#[test]
fn unescaping_inverts_the_escaping() {
    for exe in [
        "/usr/bin/openlogi-agent",
        "/opt/100%/bin/openlogi-agent",
        "/opt/release$1/bin/openlogi-agent",
        "/home/a b/openlogi-agent",
        "/home/quote\"odd/openlogi-agent",
    ] {
        assert_eq!(unescape_systemd_exec(&escape_systemd_exec(exe)), exe);
    }
}

#[test]
fn a_spaced_path_that_ends_in_a_backslash_does_not_come_back() {
    let exe = "/home/a b\\";
    assert_ne!(unescape_systemd_exec(&escape_systemd_exec(exe)), exe);
}

#[test]
fn unescaping_drops_arguments() {
    assert_eq!(
        unescape_systemd_exec("/usr/bin/openlogi-agent --verbose"),
        "/usr/bin/openlogi-agent"
    );
    assert_eq!(
        unescape_systemd_exec("\"/home/a b/openlogi-agent\" --verbose"),
        "/home/a b/openlogi-agent"
    );
}

#[test]
fn same_executable_compares_missing_paths_literally() {
    assert!(same_executable(
        "/nonexistent/openlogi-agent",
        None,
        "/nonexistent/openlogi-agent",
        None
    ));
    assert!(!same_executable(
        "/nonexistent/a",
        None,
        "/nonexistent/b",
        None
    ));
}

#[test]
fn same_executable_resolves_symlinks() {
    assert!(same_executable(
        "/tmp/linked-agent",
        Some("/tmp/openlogi-agent"),
        "/tmp/openlogi-agent",
        Some("/tmp/openlogi-agent")
    ));
}

#[test]
fn packaged_probe_ignores_a_unit_for_another_binary() {
    let unit = render_unit("/usr/bin/some-other-agent");
    let parsed = exec_start_value(&unit).map(|value| unescape_systemd_exec(&value));
    assert_eq!(parsed.as_deref(), Some("/usr/bin/some-other-agent"));
    assert!(!same_executable(
        "/usr/bin/some-other-agent",
        None,
        "/usr/bin/openlogi-agent",
        None
    ));
}

#[test]
fn a_unit_this_app_did_not_render_is_not_ours() {
    let ours = render_unit("/usr/bin/openlogi-agent");
    assert!(
        is_generated_unit(&ours),
        "our own rendering is not the user's"
    );

    let theirs = ours.replace(
        "Restart=on-failure",
        "Environment=RUST_LOG=debug\nRestart=on-failure",
    );
    assert!(
        !is_generated_unit(&theirs),
        "an edited unit belongs to whoever wrote it"
    );
}

#[test]
fn the_enablement_marker_sits_outside_the_unit_directories() {
    let marker = enablement_marker_path(&config_home());
    let generated = generated_unit_path(&data_home());
    let legacy = legacy_unit_path(&config_home());

    assert_ne!(marker, generated);
    assert_ne!(marker, legacy);
    assert_ne!(
        parent_of(&marker),
        parent_of(&generated),
        "the marker must not share a directory with the generated unit"
    );
    assert!(!marker.contains("systemd/user"));
}

fn names(steps: &[ReconcileStep]) -> Vec<&'static str> {
    steps
        .iter()
        .map(|step| match step {
            ReconcileStep::Write(_) => "write",
            ReconcileStep::Remove => "remove",
            ReconcileStep::DaemonReload => "reload",
            ReconcileStep::Enable => "enable",
            ReconcileStep::Disable => "disable",
        })
        .collect()
}

#[test]
fn reconciling_writes_enables_and_removes() {
    let exe = "/usr/bin/openlogi-agent";
    let unit = render_unit(exe);
    let steps = reconcile(true, exe, None);
    assert_eq!(names(&steps), ["write", "reload", "enable"]);
    assert!(matches!(&steps[0], ReconcileStep::Write(text) if *text == unit));
    assert_eq!(names(&reconcile(true, exe, Some(&unit))), ["enable"]);
    let other = render_unit("/opt/openlogi-agent");
    assert_eq!(
        names(&reconcile(true, exe, Some(&other))),
        ["write", "reload", "enable"]
    );
    assert_eq!(
        names(&reconcile(false, exe, Some(&unit))),
        ["disable", "remove", "reload"]
    );
    assert!(reconcile(false, exe, None).is_empty());
}

#[test]
fn a_foreign_unit_is_neither_overwritten_nor_removed() {
    let exe = "/usr/bin/openlogi-agent";
    let theirs = "[Service]\nExecStart=/bin/true\n";
    assert_eq!(names(&reconcile(true, exe, Some(theirs))), ["enable"]);
    assert_eq!(names(&reconcile(false, exe, Some(theirs))), ["disable"]);
}

#[test]
fn windows_and_legacy_descriptors() {
    assert_eq!(
        run_command("C:\\Program Files\\a.exe"),
        "\"C:\\Program Files\\a.exe\""
    );
    assert_eq!(
        legacy_plist_paths("/Users/me"),
        vec![
            "/Users/me/Library/LaunchAgents/org.openlogi.openlogi.plist".to_string(),
            "/Users/me/Library/LaunchAgents/org.openlogi.agent.plist".to_string(),
        ]
    );
}

#[test]
fn paths_split_and_join() {
    assert_eq!(join_path("/a", "b"), "/a/b");
    assert_eq!(join_path("/a/", "b"), "/a/b");
    assert_eq!(join_path("", "b"), "b");
    assert_eq!(join_path("/a", "/b"), "/b");
    assert_eq!(parent_of("/a/b").as_deref(), Some("/a"));
    assert_eq!(parent_of("/a").as_deref(), Some("/"));
    assert_eq!(parent_of("/"), None);
    assert_eq!(parent_of("a").as_deref(), Some(""));
    assert_eq!(parent_of("/a//b/").as_deref(), Some("/a"));
    assert_eq!(parent_of("/a/b/.").as_deref(), Some("/a"));
    assert_eq!(parent_of("/a/./b").as_deref(), Some("/a"));
    assert_eq!(parent_of("/./b/./").as_deref(), Some("/"));
    assert_eq!(parent_of("/."), None);
    assert_eq!(parent_of("./a").as_deref(), Some("."));
    assert_eq!(parent_of(".").as_deref(), Some(""));
    assert_eq!(parent_of("/a/..").as_deref(), Some("/a"));
    assert_eq!(extension_of("/x/Some.App/.").as_deref(), Some("App"));
    assert_eq!(extension_of("."), None);
    assert_eq!(extension_of("/x/Some.App").as_deref(), Some("App"));
    assert_eq!(extension_of("/x/.app"), None);
    assert_eq!(extension_of("/x/plain"), None);
    assert_eq!(extension_of("/x/.."), None);
}

#[test]
fn two_units_differ_in_their_exec_lines_only() {
    let one = render_unit("/usr/bin/openlogi-agent");
    let other = render_unit("/home/a b/100%/openlogi-agent");
    let pairs: Vec<(&str, &str)> = one.lines().zip(other.lines()).collect();
    assert_eq!(pairs.len(), 12);
    assert_eq!(other.lines().count(), 12);
    for (at, (a, b)) in pairs.iter().enumerate() {
        assert_eq!(a == b, at != 6);
        assert_eq!(b.starts_with("ExecStart="), at == 6);
    }
    assert_eq!(
        pairs[6].1,
        "ExecStart=\"/home/a b/100%%/openlogi-agent\""
    );
    for section in ["[Unit]", "[Service]", "[Install]"] {
        assert_eq!(one.lines().filter(|line| *line == section).count(), 1);
    }
}
