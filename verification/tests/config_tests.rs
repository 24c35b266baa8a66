use portkiller::config::{
    default_active_color, default_inactive_color, default_port_ranges, Config, LegacyConfig,
};
use portkiller::update::UpdateInfo;

#[test]
fn default_config_values() {
    let c = Config::default();
    assert_eq!(c.monitoring.poll_interval_secs, 2);
    assert!(c.monitoring.show_project_names);
    assert_eq!(c.monitoring.port_ranges.len(), 11);
    assert_eq!(c.monitoring.port_ranges[0], (3000, 3010));
    assert_eq!(c.monitoring.port_ranges[10], (27017, 27017));
    assert!(c.integrations.brew_enabled);
    assert!(c.integrations.docker_enabled);
    assert_eq!(c.ui.inactive_color, (255, 255, 255));
    assert_eq!(c.ui.active_color, (255, 69, 58));
    assert!(c.notifications.enabled);
    assert!(!c.system.launch_at_login);
}

#[test]
fn default_port_ranges_cover_dev_servers() {
    let ranges = default_port_ranges();
    assert!(ranges.contains(&(5432, 5432)));
    assert!(ranges.contains(&(8080, 8090)));
}

#[test]
fn legacy_config_migrates() {
    let legacy = LegacyConfig {
        port_ranges: vec![(1234, 1240)],
        inactive_color: (1, 2, 3),
        active_color: (4, 5, 6),
        notifications_enabled: false,
    };
    let c = Config::from(legacy);
    assert_eq!(c.monitoring.port_ranges, vec![(1234, 1240)]);
    assert_eq!(c.monitoring.poll_interval_secs, 2);
    assert_eq!(c.ui.inactive_color, (1, 2, 3));
    assert_eq!(c.ui.active_color, (4, 5, 6));
    assert!(!c.notifications.enabled);
    assert!(c.integrations.brew_enabled);
    assert!(!c.system.launch_at_login);
}

#[test]
fn default_colors_match_accessors() {
    assert_eq!(default_inactive_color(), (255, 255, 255));
    assert_eq!(default_active_color(), (255, 69, 58));
}

#[test]
fn update_info_default_is_empty() {
    let u = UpdateInfo::default();
    assert_eq!(u.version, "");
    assert_eq!(u.download_url, "");
    assert!(u.release_notes.is_none());
}
