use ditloop_desktop::ai_cli::{
    build_context, linux_launch_script, macos_launch_script, shell_escape, version_from_output,
    version_probe, windows_launch_command,
};
use ditloop_desktop::deep_link::{deep_link_action, deep_link_plan, DeepLinkAction};
use ditloop_desktop::greeting::greet;
use ditloop_desktop::notifications::{notification_icon, NotificationType};
use ditloop_desktop::number::decimal_string;
use ditloop_desktop::server::{
    accept_server, candidate_ports, health_endpoint, health_from_body, health_from_fields,
    local_server_url,
};
use ditloop_desktop::tray::{tray_action, tray_menu, TrayAction, TrayMenuEntry};
use ditloop_desktop::workspace::{
    branch_from_output, editor_command, linux_terminals, sort_by_recent, windows_enter_command,
    working_directory_arg, workspace_name, WorkspaceInfo,
};

#[test]
fn shell_escape_quotes_words() {
    assert_eq!(shell_escape("plain"), "'plain'");
    assert_eq!(shell_escape("it's"), "'it'\\''s'");
    assert_eq!(shell_escape(""), "''");
}

#[test]
fn launch_scripts_per_platform() {
    let args = vec!["--model".to_string(), "x y".to_string()];
    assert_eq!(
        linux_launch_script("aider", &args, "/w/p"),
        "bash -c 'cd '/w/p' && 'aider' '--model' 'x y''"
    );
    assert_eq!(
        macos_launch_script("aider", &Vec::new(), "/w"),
        "tell application \"Terminal\" to do script \"cd '/w' && 'aider'\""
    );
    assert_eq!(
        windows_launch_command("aider", &args, "C:\\\"w\""),
        "cd /d \"C:\\w\" && aider --model x y"
    );
}

#[test]
fn version_probe_arguments() {
    let (program, args) = version_probe("gh copilot");
    assert_eq!(program, "gh");
    assert_eq!(args, vec!["copilot", "--version"]);
    let (program, args) = version_probe("aider");
    assert_eq!(program, "aider");
    assert_eq!(args, vec!["--version"]);
}

#[test]
fn version_is_first_line_trimmed() {
    assert_eq!(version_from_output(true, "  1.2.3 \nmore\n"), (true, Some("1.2.3".to_string())));
    assert_eq!(version_from_output(true, ""), (true, None));
    assert_eq!(version_from_output(false, "1.0"), (false, None));
}

#[test]
fn context_sections_in_order() {
    let tasks = vec![("t1.md".to_string(), "do a".to_string()), ("t2.md".to_string(), "do b".to_string())];
    assert_eq!(
        build_context(Some("notes"), &tasks),
        "# Project Context (AGENTS.md)\n\nnotes\n\n# Task: t1.md\n\ndo a\n\n# Task: t2.md\n\ndo b\n\n"
    );
    assert_eq!(build_context(None, &Vec::new()), "");
}

#[test]
fn deep_links_route_by_host() {
    let route = |h: Option<&str>, p: &str| match deep_link_action(h, p) {
        DeepLinkAction::Navigate(r) => r,
        DeepLinkAction::Connect => "<connect>".to_string(),
    };
    assert_eq!(route(Some("workspace"), "/abc"), "/workspace/abc");
    assert_eq!(route(Some("approval"), "//7"), "/approvals/7");
    assert_eq!(route(Some("execution"), "/e1"), "/executions/e1");
    assert_eq!(route(Some("connect"), "/x"), "<connect>");
    assert_eq!(route(Some("other"), "/x"), "/");
    assert_eq!(route(None, "/x"), "/");
}

#[test]
fn deep_link_batch_stops_after_connect() {
    let links = vec![
        (Some("workspace".to_string()), "/a".to_string()),
        (Some("connect".to_string()), "".to_string()),
        (Some("workspace".to_string()), "/b".to_string()),
    ];
    let plan = deep_link_plan(&links);
    assert_eq!(plan.len(), 2);
    assert!(matches!(&plan[0], DeepLinkAction::Navigate(r) if r == "/workspace/a"));
    assert!(matches!(plan[1], DeepLinkAction::Connect));
}

#[test]
fn tray_menu_shows_counts() {
    let menu = tray_menu(2, 15);
    assert_eq!(menu.len(), 10);
    match &menu[2] {
        TrayMenuEntry::Item { id, label, enabled } => {
            assert_eq!(id, "active_execs");
            assert_eq!(label, "Active Executions: 2");
            assert!(!enabled);
        }
        TrayMenuEntry::Separator => panic!("expected an item"),
    }
    match &menu[3] {
        TrayMenuEntry::Item { label, .. } => assert_eq!(label, "Pending Approvals: 15"),
        TrayMenuEntry::Separator => panic!("expected an item"),
    }
    assert!(matches!(menu[1], TrayMenuEntry::Separator));
    assert!(matches!(&menu[9], TrayMenuEntry::Item { id, .. } if id == "quit"));
}

#[test]
fn tray_actions_by_id() {
    assert!(matches!(tray_action("show_hide"), TrayAction::ToggleMainWindow));
    assert!(matches!(tray_action("new_execution"), TrayAction::Navigate(r) if r == "/executions"));
    assert!(matches!(tray_action("open_workspace"), TrayAction::Navigate(r) if r == "/"));
    assert!(matches!(tray_action("preferences"), TrayAction::Navigate(r) if r == "/settings"));
    assert!(matches!(tray_action("quit"), TrayAction::Quit));
    assert!(matches!(tray_action("active_execs"), TrayAction::Ignore));
}

#[test]
fn decimal_forms() {
    assert_eq!(decimal_string(0), "0");
    assert_eq!(decimal_string(4321), "4321");
    assert_eq!(decimal_string(u64::MAX), "18446744073709551615");
}

#[test]
fn server_probe_decisions() {
    assert_eq!(candidate_ports(), vec![4321, 4322, 4323, 3000, 8080]);
    assert_eq!(local_server_url(4321), "http://localhost:4321");
    assert_eq!(health_endpoint("http://localhost:3000"), "http://localhost:3000/api/health");
    let h = health_from_fields(None, Some("1.0".to_string()));
    assert_eq!(h.status, "ok");
    assert_eq!(h.version, Some("1.0".to_string()));
    let found = accept_server("http://localhost:8080".to_string(), 8080, &h).unwrap();
    assert_eq!(found.port, 8080);
    assert!(found.healthy);
    let down = health_from_fields(Some("degraded".to_string()), None);
    assert!(accept_server("u".to_string(), 1, &down).is_none());
}

#[test]
fn health_read_from_json_body() {
    let body: serde_json::Value = serde_json::from_str(r#"{"status":"starting","version":"2.1"}"#).unwrap();
    let h = health_from_body(&body);
    assert_eq!(h.status, "starting");
    assert_eq!(h.version, Some("2.1".to_string()));
    let body: serde_json::Value = serde_json::from_str(r#"{"status":3}"#).unwrap();
    let h = health_from_body(&body);
    assert_eq!(h.status, "ok");
    assert_eq!(h.version, None);
}

#[test]
fn notification_icons() {
    assert_eq!(notification_icon(NotificationType::ApprovalRequested), "tray-attention");
    assert_eq!(notification_icon(NotificationType::ExecutionCompleted), "tray-idle");
    assert_eq!(notification_icon(NotificationType::ExecutionFailed), "tray-attention");
    assert_eq!(notification_icon(NotificationType::ExecutionStarted), "tray-running");
}

#[test]
fn greeting_text() {
    assert_eq!(greet("Ada"), "Hello, Ada! Welcome to DitLoop Desktop.");
}

fn info(name: &str, t: Option<u64>) -> WorkspaceInfo {
    WorkspaceInfo {
        name: name.to_string(),
        path: format!("/w/{}", name),
        has_git: true,
        has_aidf: false,
        git_branch: None,
        last_modified: t,
    }
}

#[test]
fn workspaces_most_recent_first() {
    let sorted = sort_by_recent(vec![
        info("old", Some(1)),
        info("none", None),
        info("new", Some(9)),
        info("mid", Some(5)),
        info("mid2", Some(5)),
    ]);
    let names: Vec<&str> = sorted.iter().map(|w| w.name.as_str()).collect();
    assert_eq!(names, vec!["new", "mid", "mid2", "old", "none"]);
}

#[test]
fn workspace_commands() {
    assert_eq!(branch_from_output(true, "main\n"), Some("main".to_string()));
    assert_eq!(branch_from_output(false, "main\n"), None);
    assert_eq!(workspace_name(None, "/"), "/");
    assert_eq!(workspace_name(Some("p".to_string()), "/x/p"), "p");
    assert_eq!(linux_terminals(), vec!["x-terminal-emulator", "gnome-terminal", "konsole", "xterm"]);
    assert_eq!(working_directory_arg("/w"), "--working-directory=/w");
    assert_eq!(windows_enter_command("C:\\\"a\""), "cd /d \"C:\\a\"");
    assert_eq!(editor_command(None), "code");
    assert_eq!(editor_command(Some("vim".to_string())), "vim");
}
