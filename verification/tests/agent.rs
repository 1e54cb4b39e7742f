//! Startup, older instances, atomic writes and quitting.

use pc_bridge::agent::{
    is_other_instance, log_enabled_features, new_password, other_instances, prepare,
    read_arguments, seed_states, startup_steps, Arguments, Preparation, StartupStep,
};
use pc_bridge::commands::custom::Platform;
use pc_bridge::config::{
    Config, CustomSensor, CustomSensorType, FeatureConfig, IntervalConfig,
};
use pc_bridge::fsutil::{temp_extension, write_atomic, Next, Outcome, Stage};
use pc_bridge::quit_signal::request_agent_quit;

fn read(args: &[&str], variable: Option<&str>) -> Arguments {
    read_arguments(&args.iter().map(|a| (*a).to_string()).collect(), variable)
}

#[test]
fn arguments_are_read() {
    let none = read(&["pc-bridge"], None);
    assert!(!none.ui && !none.setup && !none.reset_password && !none.dry_run);
    assert!(read(&["x", "--ui"], None).ui);
    assert!(read(&["x", "--setup"], None).setup);
    assert!(read(&["x", "--reset-password"], None).reset_password);
    assert!(read(&["x", "--dry-run"], None).dry_run);
    assert!(read(&["x"], Some("1")).dry_run);
    assert!(read(&["x"], Some("true")).dry_run);
    assert!(!read(&["x"], Some("yes")).dry_run);
}

#[test]
fn setup_comes_before_the_configuration() {
    let plain = read(&[], None);
    let setup = read(&["--setup"], None);
    let reset = read(&["--reset-password", "--setup"], None);
    assert_eq!(prepare(&reset, false, true), Preparation::ResetPassword);
    assert_eq!(prepare(&plain, false, true), Preparation::Setup);
    assert_eq!(prepare(&setup, false, false), Preparation::Setup);
    assert_eq!(prepare(&setup, true, false), Preparation::Load);
    assert_eq!(prepare(&plain, true, true), Preparation::Exit);
    assert_eq!(prepare(&plain, false, false), Preparation::Load);
}

fn off() -> FeatureConfig {
    let mut f = FeatureConfig::default();
    f.sleep_wake = false;
    f.display_state = false;
    f.cmd_shutdown = false;
    f.cmd_restart = false;
    f.cmd_sleep = false;
    f.cmd_lock = false;
    f.cmd_logoff = false;
    f.cmd_monitor = false;
    f
}

#[test]
fn enabled_features_are_counted() {
    let mut config = Config::default();
    assert_eq!(log_enabled_features(&config), "Features enabled: 8");
    config.custom_sensors_enabled = true;
    config.custom_commands_enabled = true;
    config.features.hwinfo_sensor = true;
    assert_eq!(log_enabled_features(&config), "Features enabled: 11");
    let mut config = Config::default();
    config.features = off();
    assert_eq!(
        log_enabled_features(&config),
        "No features enabled - running in minimal mode"
    );
}

#[test]
fn states_are_seeded_by_feature() {
    let mut f = off();
    assert!(seed_states(&f).is_empty());
    f.session_state = true;
    assert_eq!(seed_states(&f), [("session", "unlocked")]);
    f.sleep_wake = true;
    f.display_state = true;
    assert_eq!(
        seed_states(&f),
        [("sleep_state", "awake"), ("display", "on"), ("session", "unlocked")]
    );
}

#[test]
fn a_startup_has_its_order() {
    let mut config = Config::default();
    assert_eq!(
        startup_steps(&config, true),
        [
            StartupStep::RunCommands,
            StartupStep::AnnounceOnReconnect,
            StartupStep::RunSupervisor,
            StartupStep::WatchConfig,
            StartupStep::PublishOnline,
            StartupStep::PublishSeeds,
        ]
    );
    config.features.running_game = true;
    config.features.hwinfo_sensor = true;
    config.intervals = IntervalConfig {
        game_sensor: 2,
        last_active: 10,
        availability: 30,
    };
    config.custom_sensors_enabled = true;
    config.custom_sensors = vec![CustomSensor {
        name: "s".to_string(),
        sensor_type: CustomSensorType::Registry,
        interval_seconds: 30,
        unit: None,
        icon: None,
        script: None,
        process: None,
        file_path: None,
        registry_key: None,
        registry_value: None,
    }];
    let steps = startup_steps(&config, true);
    assert_eq!(steps[0], StartupStep::WatchProcesses(5));
    assert_eq!(steps[3], StartupStep::RunHwInfoSensor);
    assert_eq!(steps[4], StartupStep::RegisterCustomSensors);
    assert_eq!(steps[8], StartupStep::PublishHwInfoOffline);
    assert_eq!(steps.len(), 10);
    assert_eq!(startup_steps(&config, false).len(), 7);
}

fn wide(name: &str) -> Vec<u16> {
    let mut units: Vec<u16> = name.encode_utf16().collect();
    units.resize(260, 0);
    units
}

#[test]
fn older_instances_are_found() {
    assert!(is_other_instance(&wide("PC-Bridge.exe"), 7, 8));
    assert!(is_other_instance(&wide("pc bridge.EXE"), 7, 8));
    assert!(is_other_instance(&wide("pc-agent.exe"), 7, 8));
    assert!(!is_other_instance(&wide("pc-agent.exe"), 8, 8));
    assert!(!is_other_instance(&wide("pc-agent"), 7, 8));
    assert_eq!(
        other_instances("12\n 34 \nx\n56\r\n+7\n99999999999\n", 34),
        [12, 56, 7]
    );
}

#[test]
fn an_empty_password_changes_nothing() {
    assert_eq!(new_password(" \t\n"), None);
    assert_eq!(new_password(" pass word \n").as_deref(), Some("pass word"));
}

#[test]
fn only_windows_agents_are_asked_to_quit() {
    assert!(request_agent_quit(Platform::Windows, true));
    assert!(!request_agent_quit(Platform::Windows, false));
    assert!(!request_agent_quit(Platform::Unix, true));
}

#[test]
fn temporary_names_differ() {
    assert_eq!(temp_extension(4711, 0), "tmp.4711.0");
    assert_eq!(temp_extension(4711, 10), "tmp.4711.10");
}

/// Writes through a disk that fails at one stage, and returns whether the write
/// succeeded and the stages that were taken.
fn write_failing_at(bad: Option<Stage>, taken_names: usize) -> (bool, Vec<Stage>) {
    let mut stage = Stage::Create;
    let mut taken = Vec::new();
    let mut names = taken_names;
    loop {
        taken.push(stage);
        let outcome = if bad == Some(stage) {
            Outcome::Failed
        } else if stage == Stage::Create && names > 0 {
            names -= 1;
            Outcome::Exists
        } else {
            Outcome::Done
        };
        match write_atomic(stage, outcome, true) {
            Next::Step(s) => stage = s,
            Next::Written => return (true, taken),
            Next::GiveUp => return (false, taken),
        }
    }
}

#[test]
fn writes_replace_the_file_at_the_end() {
    let (ok, taken) = write_failing_at(None, 2);
    assert!(ok);
    assert_eq!(
        taken,
        [
            Stage::Create,
            Stage::Create,
            Stage::Create,
            Stage::Write,
            Stage::Sync,
            Stage::Rename,
            Stage::SyncDirectory,
        ]
    );
    for bad in [Stage::Create, Stage::Write, Stage::Sync] {
        let (ok, taken) = write_failing_at(Some(bad), 0);
        assert!(!ok);
        assert_eq!(taken.last(), Some(&bad));
    }
    let (ok, taken) = write_failing_at(Some(Stage::Rename), 0);
    assert!(!ok);
    assert_eq!(taken.last(), Some(&Stage::RemoveTemp));
    assert!(write_failing_at(Some(Stage::SyncDirectory), 0).0);
    assert_eq!(
        write_atomic(Stage::Rename, Outcome::Done, false),
        Next::Written
    );
}
