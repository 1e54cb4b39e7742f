//! The user configuration.

use pc_bridge::config::{
    default_sensor_interval, game_id_of, is_reload_event, migrate_config, migrate_members,
    reload_games, Config, CustomCommand, CustomCommandType, CustomSensor, CustomSensorType,
    FeatureConfig, FileEvent, GameConfig, IntervalConfig, MigrateError, ReloadReport, SteamGame,
};
use serde_json::Value;

fn valid() -> Config {
    let mut config = Config::default();
    config.device_name = "dank-pc".to_string();
    config
}

fn sensor(name: &str, sensor_type: CustomSensorType) -> CustomSensor {
    CustomSensor {
        name: name.to_string(),
        sensor_type,
        interval_seconds: default_sensor_interval(),
        unit: None,
        icon: None,
        script: None,
        process: None,
        file_path: None,
        registry_key: None,
        registry_value: None,
    }
}

fn command(name: &str, command_type: CustomCommandType) -> CustomCommand {
    CustomCommand {
        name: name.to_string(),
        command_type,
        icon: None,
        admin: false,
        script: None,
        path: None,
        args: None,
        command: None,
    }
}

fn steam(exe_key: &str, name: &str, app_id: u32) -> SteamGame {
    SteamGame {
        exe_key: exe_key.to_string(),
        name: name.to_string(),
        app_id,
    }
}

#[test]
fn intervals_have_defaults() {
    let i = IntervalConfig::default();
    assert_eq!((i.game_sensor, i.last_active, i.availability), (5, 10, 30));
    assert_eq!(default_sensor_interval(), 30);
}

#[test]
fn the_template_has_to_be_edited() {
    assert_eq!(
        Config::default().validate().unwrap_err(),
        "device_name is still the default 'my-pc' - please change it"
    );
    assert!(valid().validate().is_ok());
    assert!(Config::is_first_run(false));
    assert!(!Config::is_first_run(true));
}

#[test]
fn each_broken_rule_has_its_message() {
    let error = |change: &dyn Fn(&mut Config)| {
        let mut c = valid();
        change(&mut c);
        c.validate().unwrap_err()
    };
    assert_eq!(error(&|c| c.device_name.clear()), "device_name is required");
    assert_eq!(
        error(&|c| c.device_name = "a\u{2003}b".to_string()),
        "device_name cannot contain whitespace"
    );
    assert_eq!(error(&|c| c.mqtt.broker.clear()), "mqtt.broker is required");
    assert_eq!(
        error(&|c| c.mqtt.broker = "http://x".to_string()),
        "mqtt.broker must start with tcp://, ssl://, ws://, or wss://"
    );
    for scheme in ["tcp://", "ssl://", "ws://", "wss://"] {
        let mut c = valid();
        c.mqtt.broker = format!("{scheme}host");
        assert!(c.validate().is_ok());
    }
    // The first broken rule is the one that is named.
    assert_eq!(
        error(&|c| {
            c.device_name.clear();
            c.mqtt.broker.clear();
        }),
        "device_name is required"
    );
}

#[test]
fn sensors_need_their_fields() {
    let check = |s: CustomSensor| {
        let mut c = valid();
        c.custom_sensors = vec![s];
        c.validate()
    };
    assert_eq!(
        check(sensor("", CustomSensorType::Registry)).unwrap_err(),
        "Custom sensor name cannot be empty"
    );
    assert_eq!(
        check(sensor("a b", CustomSensorType::Registry)).unwrap_err(),
        "Custom sensor name 'a b' cannot contain whitespace"
    );
    assert_eq!(
        check(sensor("s", CustomSensorType::Powershell)).unwrap_err(),
        "Custom sensor 's' (powershell) requires 'script' field"
    );
    let mut s = sensor("s", CustomSensorType::ProcessExists);
    s.process = Some(String::new());
    assert_eq!(
        check(s.clone()).unwrap_err(),
        "Custom sensor 's' (process_exists) requires 'process' field"
    );
    s.process = Some("x.exe".to_string());
    assert!(check(s).is_ok());
    assert_eq!(
        check(sensor("s", CustomSensorType::FileContents)).unwrap_err(),
        "Custom sensor 's' (file_contents) requires 'file_path' field"
    );
    let mut s = sensor("s", CustomSensorType::Registry);
    assert_eq!(
        check(s.clone()).unwrap_err(),
        "Custom sensor 's' (registry) requires 'registry_key' field"
    );
    s.registry_key = Some("HKCU".to_string());
    assert_eq!(
        check(s.clone()).unwrap_err(),
        "Custom sensor 's' (registry) requires 'registry_value' field"
    );
    s.registry_value = Some("v".to_string());
    assert!(check(s).is_ok());
}

#[test]
fn commands_need_their_fields_and_privileges() {
    let check = |cmd: CustomCommand, allowed: bool| Config::validate_custom_command(&cmd, allowed);
    assert_eq!(
        check(command("", CustomCommandType::Shell), false).unwrap_err(),
        "Custom command name cannot be empty"
    );
    assert_eq!(
        check(command("a\tb", CustomCommandType::Shell), false).unwrap_err(),
        "Custom command name 'a\tb' cannot contain whitespace"
    );
    assert_eq!(
        check(command("c", CustomCommandType::Powershell), false).unwrap_err(),
        "Custom command 'c' (powershell) requires 'script' field"
    );
    assert_eq!(
        check(command("c", CustomCommandType::Executable), false).unwrap_err(),
        "Custom command 'c' (executable) requires 'path' field"
    );
    assert_eq!(
        check(command("c", CustomCommandType::Shell), false).unwrap_err(),
        "Custom command 'c' (shell) requires 'command' field"
    );
    let mut c = command("c", CustomCommandType::Shell);
    c.command = Some("echo".to_string());
    c.admin = true;
    assert!(check(c.clone(), true).is_ok());
    assert_eq!(
        check(c, false).unwrap_err(),
        "Custom command 'c' has admin=true but custom_command_privileges_allowed=false. \
         Set custom_command_privileges_allowed=true if you understand the security implications."
    );
}

#[test]
fn titles_are_made_of_game_ids() {
    let title = |id: &str| GameConfig::Simple(id.to_string()).display_name();
    assert_eq!(title("battlefield_6"), "Battlefield 6");
    assert_eq!(title("7_days_to_die"), "7 Days To Die");
    assert_eq!(title("__two  words_"), "Two Words");
    assert_eq!(title("stra\u{df}e_\u{df}x"), "Stra\u{df}e SSx");
    assert_eq!(title(""), "");
    assert_eq!(title("\u{bd}x"), "\u{bd}x");
}

#[test]
fn games_know_their_names() {
    let g = GameConfig::from_steam("cs2".to_string(), 730, "Counter-Strike 2".to_string());
    assert_eq!(g.game_id(), "cs2");
    assert_eq!(g.app_id(), Some(730));
    assert_eq!(g.display_name(), "Counter-Strike 2");
    let g = GameConfig::Full {
        game_id: "half_life".to_string(),
        app_id: None,
        name: None,
        auto_discovered: false,
    };
    assert_eq!(g.app_id(), None);
    assert_eq!(g.display_name(), "Half Life");
}

#[test]
fn game_ids_are_made_of_steam_names() {
    assert_eq!(game_id_of("Tom Clancy's Rainbow Six\u{ae} Siege"), "tom_clancys_rainbow_six_siege");
    assert_eq!(game_id_of("Counter-Strike 2"), "counter_strike_2");
    assert_eq!(game_id_of("\u{c9}toile"), "toile");
    // The lower case of the Kelvin sign is an ASCII letter.
    assert_eq!(game_id_of("\u{212a}"), "k");
}

#[test]
fn a_merge_adds_only_new_games() {
    let mut c = valid();
    c.games = vec![("cs2".to_string(), GameConfig::Simple("mine".to_string()))];
    let found = vec![
        steam("cs2", "Counter-Strike 2", 730),
        steam("bf6", "Battlefield 6", 1),
        steam("bf6", "Again", 2),
    ];
    assert_eq!(c.merge_steam_games(&found), 1);
    assert_eq!(c.games.len(), 2);
    assert_eq!(c.games[0].1.game_id(), "mine");
    assert_eq!(c.games[1].0, "bf6");
    assert_eq!(c.games[1].1.game_id(), "battlefield_6");
    assert_eq!(c.games[1].1.app_id(), Some(1));
    assert_eq!(c.merge_steam_games(&found), 0);
    assert_eq!(c.games.len(), 2);
}

#[test]
fn ids_are_made_of_the_device_name() {
    let mut c = valid();
    assert_eq!(c.device_id(), "dank_pc");
    assert_eq!(c.client_id(), "pc-agent-dank-pc");
    c.mqtt.client_id = Some("mine".to_string());
    assert_eq!(c.client_id(), "mine");
}

const CURRENT: &str = r#"{ "show_tray_icon": false, "features": {}, "custom_sensors_enabled": true,
  "custom_commands_enabled": false, "custom_command_privileges_allowed": false,
  "custom_sensors": [], "custom_commands": [], "intervals": {"game_sensor": 7} }"#;

#[test]
fn a_current_text_is_left_alone() {
    assert_eq!(
        migrate_config(CURRENT).unwrap(),
        (CURRENT.to_string(), false)
    );
}

#[test]
fn an_old_text_is_completed() {
    let (text, changed) = migrate_config(
        r#"{"device_name":"x","intervals":{"game_sensor":0,"last_active":0,"availability":45}}"#,
    )
    .unwrap();
    assert!(changed);
    let v: Value = serde_json::from_str(&text).unwrap();
    assert_eq!(v["device_name"], "x");
    assert_eq!(v["show_tray_icon"], true);
    assert_eq!(v["intervals"]["game_sensor"], 5);
    assert_eq!(v["intervals"]["last_active"], 10);
    assert_eq!(v["intervals"]["availability"], 45);
    assert_eq!(v["features"]["power_events"], false);
    assert_eq!(v["features"].as_object().unwrap().len(), 4);
    assert_eq!(v["custom_sensors_enabled"], false);
    assert_eq!(v["custom_commands_enabled"], false);
    assert_eq!(v["custom_command_privileges_allowed"], false);
    assert_eq!(v["custom_sensors"], Value::Array(Vec::new()));
    assert_eq!(v["custom_commands"], Value::Array(Vec::new()));
    assert_eq!(v.as_object().unwrap().len(), 9);
    assert!(text.contains("\n  \"show_tray_icon\": true"));

    let (again, changed) = migrate_config(&text).unwrap();
    assert!(!changed);
    assert_eq!(again, text);
}

#[test]
fn a_migrated_text_is_left_alone() {
    let (text, changed) = migrate_config(
        r#"{"extra":{"x":0.1,"y":1e23,"z":5e-324,"k":[1.7976931348623157e308,-0.0]},
            "intervals":{"game_sensor":0,"disk":0,"other":2.2250738585072011e-308},
            "features":{"power_events":true,"unknown":null}}"#,
    )
    .unwrap();
    assert!(changed);
    assert_eq!(migrate_config(&text).unwrap(), (text, false));
}

#[test]
fn zeros_that_are_no_integers_stay() {
    let text = CURRENT.replace("7", "0.0");
    assert!(!migrate_config(&text).unwrap().1);
    let text = CURRENT.replace("7", "\"0\"");
    assert!(!migrate_config(&text).unwrap().1);
}

#[test]
fn texts_that_cannot_be_migrated() {
    assert_eq!(migrate_config("{").unwrap_err(), MigrateError::InvalidJson);
    assert_eq!(migrate_config("[1]").unwrap_err(), MigrateError::NotAnObject);
    let mut members = vec![("show_tray_icon".to_string(), "true".to_string())];
    members.push(("intervals".to_string(), "{\"game_sensor\":0}".to_string()));
    assert_eq!(migrate_members(&mut members), Ok(true));
    assert_eq!(members[1].1, "{\"game_sensor\":5}");
    assert_eq!(members.len(), 8);
    assert_eq!(migrate_members(&mut members), Ok(false));
}

#[test]
fn only_changes_of_the_file_reload_it() {
    let touched = vec!["other.json".to_string(), "userConfig.json".to_string()];
    let event = |e| is_reload_event(&touched, "userConfig.json", e);
    assert!(event(FileEvent::Created));
    assert!(event(FileEvent::Modified));
    assert!(!event(FileEvent::Other));
    assert!(!is_reload_event(&touched, "userConfig", FileEvent::Modified));
    assert!(!is_reload_event(&Vec::new(), "userConfig.json", FileEvent::Modified));
}

#[test]
fn a_reload_takes_over_games_and_custom_entities() {
    let mut old = valid();
    old.games = vec![("a".to_string(), GameConfig::Simple("a".to_string()))];
    let mut new = Config::default();
    new.custom_commands_enabled = true;
    new.custom_command_privileges_allowed = true;
    new.custom_sensors = vec![sensor("s", CustomSensorType::Registry)];
    new.features.hwinfo_sensor = true;
    let report = reload_games(&mut old, new);
    assert_eq!(
        report,
        ReloadReport {
            old_games: 1,
            new_games: 0,
            custom_sensors_enabled: None,
            custom_commands_enabled: Some(true),
            privileges_allowed: true,
        }
    );
    assert_eq!(old.device_name, "dank-pc");
    assert_eq!(old.features, FeatureConfig::default());
    assert!(old.games.is_empty());
    assert_eq!(old.custom_sensors.len(), 1);
}
