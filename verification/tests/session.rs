//! The connection: messages, announcements, waits and removed entities.

use pc_bridge::commands::custom::Platform;
use pc_bridge::config::{
    Config, CustomCommand, CustomCommandType, CustomSensor, CustomSensorType, FeatureConfig,
};
use pc_bridge::mqtt::discovery::{Registration, RegistrationBody};
use pc_bridge::mqtt::groups::{feature_state_path, unregister_changed_features, FeatureGroups};
use pc_bridge::mqtt::session::{
    birth_attributes, connection_plan, AnnounceStep, EventLoop, Incoming, Reaction,
};
use pc_bridge::mqtt::MqttClient;
use pc_bridge::power::sync_mqtt::sleep_connection;
use serde_json::Value;

fn client() -> MqttClient {
    MqttClient::for_device("test-pc", "1.2.3")
}

#[test]
fn sensor_values_and_attributes() {
    let m = client().publish_sensor("cpu_usage", "12");
    assert_eq!(m.topic, "homeassistant/sensor/test-pc/cpu_usage/state");
    assert_eq!(m.payload, "12");
    assert!(!m.retained);
    assert!(client().publish_sensor_retained("cpu_usage", "12").retained);
    let m = client().publish_sensor_attributes("custom_x", "{}");
    assert_eq!(m.topic, "homeassistant/sensor/test-pc/custom_x/attributes");
    assert!(m.retained);
}

#[test]
fn availability_messages_are_retained() {
    let m = client().publish_availability(false);
    assert_eq!(m.topic, "homeassistant/sensor/test-pc/availability");
    assert_eq!(m.payload, "offline");
    assert!(m.retained);
    let h = client().publish_hwinfo_availability(true);
    assert_ne!(h.topic, m.topic);
    assert_eq!(h.payload, "online");
    assert!(h.retained);
}

#[test]
fn dry_runs_are_reported_as_json() {
    let m = client().publish_test_action("Lock", "say \"hi\"\n", "native:lock");
    assert_eq!(m.topic, "pc-bridge/test/executed/test-pc");
    assert_eq!(
        m.payload,
        r#"{"action":"native:lock","name":"Lock","payload":"say \"hi\"\n"}"#
    );
    assert!(!m.retained);
}

#[test]
fn connections_are_planned() {
    let mut config = Config::default();
    config.device_name = "test-pc".to_string();
    let plan = connection_plan(&config);
    assert_eq!(plan.host, "homeassistant.local");
    assert_eq!((plan.port, plan.use_tls), (1883, false));
    assert_eq!(plan.client_id, "pc-agent-test-pc");
    assert!(plan.credentials.is_none());
    assert_eq!(plan.last_will.payload, "offline");
    assert!(plan.last_will.retained);
    config.mqtt.broker = "wss://broker".to_string();
    config.mqtt.user = "u".to_string();
    config.mqtt.pass = "p".to_string();
    let plan = connection_plan(&config);
    assert_eq!((plan.port, plan.use_tls), (8883, true));
    assert_eq!(plan.credentials, Some(("u".to_string(), "p".to_string())));
}

#[test]
fn the_sleep_connection_has_its_own_name() {
    let mut config = Config::default();
    config.device_name = "test-pc".to_string();
    let c = sleep_connection(&config);
    assert_eq!(c.host, "homeassistant.local");
    assert_ne!(c.client_id, config.client_id());
    assert_eq!(c.sleep_topic, "homeassistant/sensor/test-pc/sleep_state/state");
}

#[test]
fn birth_attributes_are_json() {
    let f = FeatureConfig::default();
    let v: Value = serde_json::from_str(&birth_attributes("1.2", "li\"nux", "x", &f)).unwrap();
    assert_eq!(v["version"], "1.2");
    assert_eq!(v["os"], "li\"nux");
    assert_eq!(v["arch"], "x");
    assert_eq!(v["features"].as_object().unwrap().len(), 32);
    assert_eq!(v["features"]["sleep_wake"], true);
    assert_eq!(v["features"]["hwinfo_sensor"], false);
}

#[test]
fn subscriptions_come_before_messages() {
    let steps = client().announce(&Config::default(), "1.2", "linux", "x");
    let first = steps
        .iter()
        .position(|s| matches!(s, AnnounceStep::Publish(_)))
        .unwrap();
    assert!(first > 0);
    assert!(steps[first..]
        .iter()
        .all(|s| matches!(s, AnnounceStep::Publish(_))));
    let topics: Vec<String> = steps[first..]
        .iter()
        .filter_map(|s| match s {
            AnnounceStep::Publish(m) => Some(m.topic.clone()),
            AnnounceStep::Subscribe(_) => None,
        })
        .collect();
    assert_eq!(
        topics,
        [
            "homeassistant/sensor/test-pc/availability",
            "homeassistant/sensor/test-pc/bridge_info/state",
            "homeassistant/sensor/test-pc/bridge_info/attributes",
        ]
    );
}

#[test]
fn reconnection_waits_double_up_to_half_a_minute() {
    let mut events = EventLoop::new();
    let mut wait = || match events.on_event(&client(), &Incoming::Failed) {
        Reaction::WaitSeconds(n) => n,
        _ => 0,
    };
    let waits: Vec<u64> = (0..7).map(|_| wait()).collect();
    assert_eq!(waits, [1, 2, 4, 8, 16, 30, 30]);
    assert!(matches!(
        events.on_event(&client(), &Incoming::Other),
        Reaction::Nothing
    ));
    assert!(matches!(
        events.on_event(&client(), &Incoming::ConnAck),
        Reaction::Announce
    ));
    assert!(matches!(
        events.on_event(&client(), &Incoming::Failed),
        Reaction::WaitSeconds(1)
    ));
}

#[test]
fn payloads_are_read_as_text() {
    let event = Incoming::Publish {
        topic: "homeassistant/button/test-pc/Launch/action".to_string(),
        payload: vec![b'a', 0xFF, b'b'],
    };
    match EventLoop::new().on_event(&client(), &event) {
        Reaction::Deliver(c) => assert_eq!((c.name.as_str(), c.payload.as_str()), ("Launch", "a\u{FFFD}b")),
        _ => panic!("nothing was delivered"),
    }
}

#[test]
fn custom_entities_are_announced() {
    let sensor = CustomSensor {
        name: "temp".to_string(),
        sensor_type: CustomSensorType::Powershell,
        interval_seconds: 30,
        unit: Some("C".to_string()),
        icon: None,
        script: None,
        process: None,
        file_path: None,
        registry_key: None,
        registry_value: None,
    };
    let found = client().register_custom_sensors(&vec![sensor]);
    assert_eq!(found.len(), 1);
    assert_eq!(
        found[0].topic,
        "homeassistant/sensor/test-pc/custom_temp/config"
    );
    match &found[0].body {
        RegistrationBody::Entity(p) => {
            assert_eq!(p.name, "Custom: temp");
            assert_eq!(p.icon.as_deref(), Some("mdi:gauge"));
            assert_eq!(p.unit_of_measurement.as_deref(), Some("C"));
        }
        RegistrationBody::Notify(_) => panic!("not a sensor"),
    }

    let command = CustomCommand {
        name: "backup".to_string(),
        command_type: CustomCommandType::Shell,
        icon: Some("mdi:x".to_string()),
        admin: false,
        script: None,
        path: None,
        args: None,
        command: None,
    };
    let found = client().register_custom_commands(&vec![command]);
    assert_eq!(found.len(), 1);
    assert_eq!(found[0].1, "homeassistant/button/test-pc/backup/action");
    match &found[0].0.body {
        RegistrationBody::Entity(p) => {
            assert_eq!(p.unique_id, "test_pc_custom_backup");
            assert_eq!(p.icon.as_deref(), Some("mdi:x"));
            assert_eq!(p.command_topic.as_ref(), Some(&found[0].1));
        }
        RegistrationBody::Notify(_) => panic!("not a button"),
    }
}

#[test]
fn groups_that_are_turned_off_lose_their_entities() {
    let mut before = FeatureGroups::default();
    before.notifications = true;
    before.audio_control = true;
    let mut now = before;
    assert!(unregister_changed_features(&before, &now, "test-pc").is_empty());
    now.notifications = false;
    now.discord = true;
    let gone = unregister_changed_features(&before, &now, "test-pc");
    assert_eq!(gone.len(), 1);
    assert_eq!(gone[0].topic, "homeassistant/notify/test-pc/config");
    assert_eq!(gone[0].payload, "");
    assert!(gone[0].retained);
    assert!(unregister_changed_features(&now, &now, "test-pc").is_empty());
    let none = FeatureGroups {
        power_events: false,
        ..FeatureGroups::default()
    };
    let gone = unregister_changed_features(&before, &none, "test-pc");
    assert_eq!(gone.len(), 7 + 6 + 1);
    assert_eq!(
        gone[0].topic,
        "homeassistant/sensor/test-pc/sleep_state/config"
    );
}

#[test]
fn the_feature_state_lies_in_the_directory_of_the_user() {
    assert_eq!(
        feature_state_path(Platform::Windows, Some("L"), Some("H")),
        ["L", "pc-bridge", "feature_state.json"]
    );
    assert_eq!(
        feature_state_path(Platform::Unix, Some("L"), Some("H")),
        ["H", ".cache", "pc-bridge", "feature_state.json"]
    );
    assert_eq!(
        feature_state_path(Platform::Unix, Some("L"), None),
        ["feature_state.json"]
    );
}

#[test]
fn with_every_feature_off_one_entity_is_announced() {
    let mut f = FeatureConfig::default();
    f.sleep_wake = false;
    f.display_state = false;
    f.cmd_shutdown = false;
    f.cmd_restart = false;
    f.cmd_sleep = false;
    f.cmd_lock = false;
    f.cmd_logoff = false;
    f.cmd_monitor = false;
    let found = client().register_discovery(&f, true);
    assert_eq!(found.len(), 1);
    assert_eq!(
        found[0].topic,
        "homeassistant/sensor/test-pc/bridge_info/config"
    );
    assert!(found[0].retained);
    assert_eq!(found[0].qos, 1);
}

#[test]
fn groups_are_removed_where_they_were_announced() {
    let on = FeatureGroups {
        game_detection: true,
        idle_tracking: true,
        power_events: true,
        notifications: true,
        system_sensors: true,
        audio_control: true,
        steam_updates: true,
        discord: true,
        show_tray_icon: true,
    };
    let off = FeatureGroups {
        power_events: false,
        ..FeatureGroups::default()
    };
    let announced: Vec<Registration> = on.register_discovery(&client());
    assert!(announced.iter().all(|r| r.retained && r.qos == 1));
    assert!(off.register_discovery(&client()).is_empty());
    let removed: Vec<String> = unregister_changed_features(&on, &off, "test-pc")
        .into_iter()
        .map(|m| m.topic)
        .collect();
    for r in &announced {
        let stays = r.topic.contains("volume_level") || r.topic.contains("steam_updating");
        assert_eq!(removed.contains(&r.topic), !stays, "{}", r.topic);
    }
    assert_eq!(announced.len(), 28);
}
