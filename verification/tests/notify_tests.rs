use portkiller::model::ProcessInfo;
use portkiller::notify::{
    bundle_icon_path, escape_quotes, format_notification, maybe_notify_changes, truncate_command,
};

#[test]
fn truncation_leaves_short_commands_alone() {
    assert_eq!(truncate_command("node server.js", 40), "node server.js");
}

#[test]
fn truncation_cuts_long_commands_with_ellipsis() {
    let long = "abcdefghijklmnopqrstuvwxyz";
    assert_eq!(truncate_command(long, 10), "abcdefg...");
    assert_eq!(truncate_command(long, 2), "...");
}

#[test]
fn notification_text_includes_project() {
    let p = ProcessInfo {
        port: 3000,
        pid: 42,
        command: "node".into(),
    };
    let (title, body) = format_notification(3000, &p, &Some("shop".to_string()), true);
    assert_eq!(title, "Port 3000 Started");
    assert_eq!(body, "node (42) • shop");
    let (title2, body2) = format_notification(3000, &p, &None, false);
    assert_eq!(title2, "Port 3000 Stopped");
    assert_eq!(body2, "node (42)");
}

#[test]
fn bundle_executables_get_an_icon_path() {
    assert_eq!(
        bundle_icon_path("/Applications/PortKiller.app/Contents/MacOS/portkiller").as_deref(),
        Some("/Applications/PortKiller.app/Contents/Resources/AppIcon.png")
    );
    // The path before the first ".app/" wins, as with nested bundles.
    assert_eq!(
        bundle_icon_path("/a.app/b.app/Contents/MacOS/x").as_deref(),
        Some("/a.app/Contents/Resources/AppIcon.png")
    );
    assert!(bundle_icon_path("/usr/local/bin/portkiller").is_none());
}

#[test]
fn quotes_become_apostrophes() {
    assert_eq!(escape_quotes("say \"hi\""), "say 'hi'");
    assert_eq!(escape_quotes("plain"), "plain");
}

#[test]
fn changes_produce_start_and_stop_notifications() {
    let old = vec![ProcessInfo {
        port: 8000,
        pid: 7,
        command: "python".into(),
    }];
    let new = vec![ProcessInfo {
        port: 3000,
        pid: 42,
        command: "node".into(),
    }];
    let projects = vec![(42, "shop".to_string())];
    let notes = maybe_notify_changes(true, &new, &old, &projects);
    assert_eq!(notes.len(), 2);
    assert_eq!(notes[0].0, "Port 3000 Started");
    assert_eq!(notes[0].1, "node (42) • shop");
    assert_eq!(notes[1].0, "Port 8000 Stopped");
    assert_eq!(notes[1].1, "python (7)");
}

#[test]
fn unchanged_ports_stay_quiet() {
    let p = ProcessInfo {
        port: 3000,
        pid: 42,
        command: "node".into(),
    };
    let old = vec![p.clone()];
    let new = vec![p];
    assert!(maybe_notify_changes(true, &new, &old, &[]).is_empty());
}

#[test]
fn disabled_notifications_stay_quiet() {
    let new = vec![ProcessInfo {
        port: 3000,
        pid: 42,
        command: "node".into(),
    }];
    assert!(maybe_notify_changes(false, &new, &[], &[]).is_empty());
}

#[test]
fn duplicate_ports_announce_once() {
    let new = vec![
        ProcessInfo {
            port: 3000,
            pid: 42,
            command: "node".into(),
        },
        ProcessInfo {
            port: 3000,
            pid: 43,
            command: "node2".into(),
        },
    ];
    let notes = maybe_notify_changes(true, &new, &[], &[]);
    assert_eq!(notes.len(), 1);
    assert_eq!(notes[0].1, "node (42)");
}
