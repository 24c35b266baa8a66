use portkiller::menu::{
    build_menu_with_context, build_tooltip, collect_targets_for_all, format_command_label,
    parse_menu_action, process_menu_id, sanitize_identifier, string_lt,
};
use portkiller::model::{FeedbackSeverity, KillFeedback, MenuAction, ProcessInfo, StopRoute};

#[test]
fn parse_simple_actions() {
    assert!(matches!(
        parse_menu_action("kill_all"),
        Some(MenuAction::KillAll)
    ));
    assert!(matches!(parse_menu_action("quit"), Some(MenuAction::Quit)));
    assert!(matches!(
        parse_menu_action("edit_config"),
        Some(MenuAction::EditConfig)
    ));
    assert!(matches!(
        parse_menu_action("snooze_30m"),
        Some(MenuAction::Snooze30m)
    ));
}

#[test]
fn parse_targeted_actions() {
    assert!(matches!(
        parse_menu_action("docker_stop_mycontainer"),
        Some(MenuAction::DockerStop { container }) if container == "mycontainer"
    ));
    assert!(matches!(
        parse_menu_action("brew_stop_postgresql"),
        Some(MenuAction::BrewStop { service }) if service == "postgresql"
    ));
    assert!(matches!(
        parse_menu_action("process_1234_3000"),
        Some(MenuAction::KillPid { pid }) if pid == 1234
    ));
}

#[test]
fn parse_rejects_unknown_and_malformed_ids() {
    assert!(parse_menu_action("header_myproject").is_none());
    assert!(parse_menu_action("empty").is_none());
    assert!(parse_menu_action("process_notanumber_3000").is_none());
    assert!(parse_menu_action("process_1234").is_none());
    assert!(parse_menu_action("process_1234_70000").is_none());
}

#[test]
fn parse_sanitizes_embedded_names() {
    assert!(matches!(
        parse_menu_action("docker_stop_my/evil container"),
        Some(MenuAction::DockerStop { container }) if container == "myevilcontainer"
    ));
    assert!(matches!(
        parse_menu_action("brew_stop_post.gres-ql_9"),
        Some(MenuAction::BrewStop { service }) if service == "post.gres-ql_9"
    ));
}

#[test]
fn label_formats_ports() {
    assert_eq!(format_command_label("node", &[3000]), "node (port 3000)");
    assert_eq!(
        format_command_label("python", &[8000, 8001]),
        "python (ports 8000, 8001)"
    );
    assert_eq!(format_command_label("", &[]), "Unknown");
}

#[test]
fn collect_targets_groups_by_pid() {
    let p1 = ProcessInfo {
        port: 3000,
        pid: 111,
        command: "node".into(),
    };
    let p2 = ProcessInfo {
        port: 3001,
        pid: 111,
        command: "node".into(),
    };
    let p3 = ProcessInfo {
        port: 5173,
        pid: 222,
        command: "vite".into(),
    };
    let targets = collect_targets_for_all(&[p1, p2, p3]);
    assert_eq!(targets.len(), 2);
    assert!(
        targets
            .iter()
            .any(|t| t.pid == 111 && t.label.contains("3000") && t.label.contains("3001"))
    );
    assert!(
        targets
            .iter()
            .any(|t| t.pid == 222 && t.label.contains("5173"))
    );
}

#[test]
fn collect_targets_sorts_and_dedups_ports() {
    let p1 = ProcessInfo {
        port: 8001,
        pid: 9,
        command: "".into(),
    };
    let p2 = ProcessInfo {
        port: 8000,
        pid: 9,
        command: "python".into(),
    };
    let p3 = ProcessInfo {
        port: 8001,
        pid: 9,
        command: "python".into(),
    };
    let targets = collect_targets_for_all(&[p1, p2, p3]);
    assert_eq!(targets.len(), 1);
    assert_eq!(targets[0].pid, 9);
    assert_eq!(targets[0].label, "python (ports 8000, 8001)");
}

#[test]
fn menu_id_round_trips_through_parse() {
    let id = process_menu_id(4821, 3000);
    assert_eq!(id, "process_4821_3000");
    assert!(matches!(
        parse_menu_action(&id),
        Some(MenuAction::KillPid { pid }) if pid == 4821
    ));
}

#[test]
fn sanitize_keeps_safe_characters_only() {
    assert_eq!(sanitize_identifier("my-app_1.2"), "my-app_1.2");
    assert_eq!(sanitize_identifier("a b!c\"d"), "abcd");
}

#[test]
fn tooltip_empty_and_busy() {
    assert_eq!(build_tooltip(&[], None), "No dev port listeners detected.");
    let p = ProcessInfo {
        port: 3000,
        pid: 42,
        command: "node".into(),
    };
    assert_eq!(
        build_tooltip(std::slice::from_ref(&p), None),
        "Active listeners: 1\nPort 3000 → node (PID 42)"
    );
    let many: Vec<ProcessInfo> = (0..7)
        .map(|i| ProcessInfo {
            port: 3000 + i as u16,
            pid: 100 + i,
            command: format!("cmd{}", i),
        })
        .collect();
    let tip = build_tooltip(&many, None);
    assert!(tip.starts_with("Active listeners: 7\n"));
    assert!(tip.contains("Port 3004 → cmd4 (PID 104)"));
    assert!(!tip.contains("Port 3005"));
    assert!(tip.ends_with("…and 2 more"));
}

#[test]
fn tooltip_appends_feedback() {
    let fb = KillFeedback {
        severity: FeedbackSeverity::Warning,
        message: "node survived".into(),
    };
    let tip = build_tooltip(&[], Some(&fb));
    assert_eq!(
        tip,
        "No dev port listeners detected.\nLast action: ⚠️ node survived"
    );
}

#[test]
fn menu_lists_groups_sorted_by_project() {
    let p1 = ProcessInfo {
        port: 3000,
        pid: 1,
        command: "node".into(),
    };
    let p2 = ProcessInfo {
        port: 5432,
        pid: 2,
        command: "postgres".into(),
    };
    let routes = vec![StopRoute::Process, StopRoute::Process];
    let projects = vec![(1, "zeta".to_string()), (2, "alpha".to_string())];
    let entries = build_menu_with_context(&[p1, p2], &routes, &projects);
    let ids: Vec<&str> = entries.iter().map(|e| e.id.as_str()).collect();
    assert_eq!(
        ids,
        vec![
            "header_alpha",
            "process_2_5432",
            "",
            "header_zeta",
            "process_1_3000",
            "",
            "kill_all",
            "",
            "snooze_30m",
            "edit_config",
            "quit",
        ]
    );
    assert_eq!(entries[0].label, "— alpha —");
    assert!(!entries[0].enabled);
    assert_eq!(entries[1].label, "Kill postgres (PID 2, port 5432)");
    assert!(entries[1].enabled);
    assert!(entries[2].is_separator);
    assert_eq!(entries[6].label, "Kill all (2)");
}

#[test]
fn menu_routes_docker_and_brew() {
    let p1 = ProcessInfo {
        port: 5432,
        pid: 7,
        command: "postgres".into(),
    };
    let p2 = ProcessInfo {
        port: 6379,
        pid: 8,
        command: "redis".into(),
    };
    let routes = vec![
        StopRoute::Brew {
            service: "postgresql".into(),
        },
        StopRoute::Docker {
            container: "cache".into(),
        },
    ];
    let projects = vec![(7, "db".to_string()), (8, "db".to_string())];
    let entries = build_menu_with_context(&[p1, p2], &routes, &projects);
    assert_eq!(entries[0].id, "header_db");
    assert_eq!(entries[1].id, "brew_stop_postgresql");
    assert_eq!(entries[1].label, "Stop via brew postgresql");
    assert_eq!(entries[2].id, "docker_stop_cache");
    assert_eq!(entries[2].label, "Stop container cache (port 6379)");
}

#[test]
fn menu_when_nothing_listens() {
    let entries = build_menu_with_context(&[], &[], &[]);
    assert_eq!(entries[0].id, "empty");
    assert_eq!(entries[0].label, "No dev ports listening");
    assert!(!entries[0].enabled);
    assert!(entries[1].is_separator);
    assert_eq!(entries.len(), 5);
}

#[test]
fn string_order_is_lexicographic() {
    assert!(string_lt("alpha", "beta"));
    assert!(string_lt("abc", "abcd"));
    assert!(!string_lt("abc", "abc"));
    assert!(!string_lt("b", "alpha"));
}
