use vstd::prelude::*;

verus! {

// ---------------------------------------------------------------------------
// The configuration, with its defaults and the legacy migration.
// ---------------------------------------------------------------------------

#[derive(Clone, Debug)]
pub struct MonitoringConfig {
    pub poll_interval_secs: u64,
    pub port_ranges: Vec<(u16, u16)>,
    pub show_project_names: bool,
}

#[derive(Clone, Debug)]
pub struct IntegrationsConfig {
    pub brew_enabled: bool,
    pub docker_enabled: bool,
}

#[derive(Clone, Copy, Debug)]
pub struct UiConfig {
    pub inactive_color: (u8, u8, u8),
    pub active_color: (u8, u8, u8),
}

#[derive(Clone, Debug)]
pub struct NotificationsConfig {
    pub enabled: bool,
}

#[derive(Clone, Debug)]
pub struct SystemConfig {
    pub launch_at_login: bool,
}

#[derive(Clone, Debug)]
pub struct Config {
    pub monitoring: MonitoringConfig,
    pub integrations: IntegrationsConfig,
    pub ui: UiConfig,
    pub notifications: NotificationsConfig,
    pub system: SystemConfig,
}

/// The older on-disk shape, read only to migrate it.
#[derive(Debug)]
pub struct LegacyConfig {
    pub port_ranges: Vec<(u16, u16)>,
    pub inactive_color: (u8, u8, u8),
    pub active_color: (u8, u8, u8),
    pub notifications_enabled: bool,
}

// Defaults for MonitoringConfig

pub fn default_poll_interval_secs() -> (r: u64)
    ensures
        r == 2,
{
    2
}

/// The port ranges watched out of the box: the common development servers
/// and databases.
pub open spec fn spec_default_port_ranges() -> Seq<(u16, u16)> {
    seq![
        (3000u16, 3010u16),
        (3306u16, 3306u16),
        (4000u16, 4010u16),
        (5001u16, 5010u16),
        (5173u16, 5173u16),
        (5432u16, 5432u16),
        (6379u16, 6380u16),
        (8000u16, 8100u16),
        (8080u16, 8090u16),
        (9000u16, 9010u16),
        (27017u16, 27017u16),
    ]
}

pub fn default_port_ranges() -> (r: Vec<(u16, u16)>)
    ensures
        r@ == spec_default_port_ranges(),
{
    let mut r: Vec<(u16, u16)> = Vec::new();
    r.push((3000, 3010));
    r.push((3306, 3306));
    r.push((4000, 4010));
    r.push((5001, 5010));
    r.push((5173, 5173));
    r.push((5432, 5432));
    r.push((6379, 6380));
    r.push((8000, 8100));
    r.push((8080, 8090));
    r.push((9000, 9010));
    r.push((27017, 27017));
    proof {
        assert(r@ =~= spec_default_port_ranges());
    }
    r
}

pub fn default_show_project_names() -> (r: bool)
    ensures
        r == true,
{
    true
}

// Defaults for IntegrationsConfig

pub fn default_brew_enabled() -> (r: bool)
    ensures
        r == true,
{
    true
}

pub fn default_docker_enabled() -> (r: bool)
    ensures
        r == true,
{
    true
}

// Defaults for UiConfig

pub fn default_inactive_color() -> (r: (u8, u8, u8))
    ensures
        r == (255u8, 255u8, 255u8),
{
    (255, 255, 255)
}

pub fn default_active_color() -> (r: (u8, u8, u8))
    ensures
        r == (255u8, 69u8, 58u8),
{
    (255, 69, 58)
}

// Defaults for NotificationsConfig

pub fn default_notifications_enabled() -> (r: bool)
    ensures
        r == true,
{
    true
}

// Defaults for SystemConfig

pub fn default_launch_at_login() -> (r: bool)
    ensures
        r == false,
{
    false
}

pub open spec fn monitoring_is_default(m: MonitoringConfig) -> bool {
    &&& m.poll_interval_secs == 2
    &&& m.port_ranges@ == spec_default_port_ranges()
    &&& m.show_project_names == true
}

pub open spec fn integrations_is_default(i: IntegrationsConfig) -> bool {
    i.brew_enabled == true && i.docker_enabled == true
}

pub open spec fn ui_is_default(u: UiConfig) -> bool {
    u.inactive_color == (255u8, 255u8, 255u8) && u.active_color == (255u8, 69u8, 58u8)
}

pub open spec fn config_is_default(c: Config) -> bool {
    &&& monitoring_is_default(c.monitoring)
    &&& integrations_is_default(c.integrations)
    &&& ui_is_default(c.ui)
    &&& c.notifications.enabled == true
    &&& c.system.launch_at_login == false
}

impl Default for MonitoringConfig {
    fn default() -> (r: Self)
        ensures
            monitoring_is_default(r),
    {
        MonitoringConfig {
            poll_interval_secs: default_poll_interval_secs(),
            port_ranges: default_port_ranges(),
            show_project_names: default_show_project_names(),
        }
    }
}

impl Default for IntegrationsConfig {
    fn default() -> (r: Self)
        ensures
            integrations_is_default(r),
    {
        IntegrationsConfig {
            brew_enabled: default_brew_enabled(),
            docker_enabled: default_docker_enabled(),
        }
    }
}

impl Default for UiConfig {
    fn default() -> (r: Self)
        ensures
            ui_is_default(r),
    {
        UiConfig { inactive_color: default_inactive_color(), active_color: default_active_color() }
    }
}

impl Default for NotificationsConfig {
    fn default() -> (r: Self)
        ensures
            r.enabled == true,
    {
        NotificationsConfig { enabled: default_notifications_enabled() }
    }
}

impl Default for SystemConfig {
    fn default() -> (r: Self)
        ensures
            r.launch_at_login == false,
    {
        SystemConfig { launch_at_login: default_launch_at_login() }
    }
}

impl Default for Config {
    fn default() -> (r: Self)
        ensures
            config_is_default(r),
    {
        Config {
            monitoring: MonitoringConfig::default(),
            integrations: IntegrationsConfig::default(),
            ui: UiConfig::default(),
            notifications: NotificationsConfig::default(),
            system: SystemConfig::default(),
        }
    }
}

impl From<LegacyConfig> for Config {
    /// Migration: the legacy fields carry over, everything the old format
    /// did not know gets its default.
    fn from(legacy: LegacyConfig) -> (r: Self) {
        Config {
            monitoring: MonitoringConfig {
                poll_interval_secs: default_poll_interval_secs(),
                port_ranges: legacy.port_ranges,
                show_project_names: default_show_project_names(),
            },
            integrations: IntegrationsConfig {
                brew_enabled: default_brew_enabled(),
                docker_enabled: default_docker_enabled(),
            },
            ui: UiConfig {
                inactive_color: legacy.inactive_color,
                active_color: legacy.active_color,
            },
            notifications: NotificationsConfig { enabled: legacy.notifications_enabled },
            system: SystemConfig { launch_at_login: default_launch_at_login() },
        }
    }
}

impl vstd::std_specs::convert::FromSpecImpl<LegacyConfig> for Config {
    open spec fn obeys_from_spec() -> bool {
        true
    }

    open spec fn from_spec(legacy: LegacyConfig) -> Config {
        Config {
            monitoring: MonitoringConfig {
                poll_interval_secs: 2,
                port_ranges: legacy.port_ranges,
                show_project_names: true,
            },
            integrations: IntegrationsConfig { brew_enabled: true, docker_enabled: true },
            ui: UiConfig {
                inactive_color: legacy.inactive_color,
                active_color: legacy.active_color,
            },
            notifications: NotificationsConfig { enabled: legacy.notifications_enabled },
            system: SystemConfig { launch_at_login: false },
        }
    }
}

} // verus!
