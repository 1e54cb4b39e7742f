//! Topics, discovery payloads, subscriptions and routing.

use pc_bridge::commands::{command_feature_enabled, native_command_list};
use pc_bridge::config;
use pc_bridge::config::{Config, CustomCommand, CustomSensor, FeatureConfig, IntervalConfig, MqttConfig};
use pc_bridge::mqtt::discovery::RegistrationBody;
use pc_bridge::mqtt::payload::{derive_state_class, HADevice, HADiscoveryPayload, WireValue};
use pc_bridge::mqtt::session::{availability_payload, AnnounceStep, EventLoop, Incoming, Reaction};
use pc_bridge::mqtt::topics::{config_topic_of, notify_config_topic_of, CachedTopics};
use pc_bridge::mqtt::{Command, MqttClient};
use serde_json::Value;

const VERSION: &str = "2.14.0";

/// The client of a device.
fn test_client(device_name: &str) -> MqttClient {
    MqttClient::for_device(device_name, VERSION)
}

/// A JSON object with these members.
fn object(members: Vec<(&str, Value)>) -> Value {
    Value::Object(
        members
            .into_iter()
            .map(|(k, v)| (k.to_string(), v))
            .collect(),
    )
}

/// The JSON object that the fields of a payload make.
fn to_json(fields: &[(&'static str, WireValue)]) -> Value {
    object(
        fields
            .iter()
            .map(|(name, value)| {
                let v = match value {
                    WireValue::Text(t) => Value::from(t.as_str()),
                    WireValue::Number(n) => Value::from(*n),
                    WireValue::Topics(topics) => Value::Array(
                        topics
                            .iter()
                            .map(|t| object(vec![("topic", Value::from(t.as_str()))]))
                            .collect(),
                    ),
                    WireValue::Device(d) => object(vec![
                        ("identifiers", Value::from(d.identifiers.clone())),
                        ("name", Value::from(d.name.as_str())),
                        ("model", Value::from(d.model.as_str())),
                        ("manufacturer", Value::from(d.manufacturer.as_str())),
                        ("sw_version", Value::from(d.sw_version.as_str())),
                    ]),
                };
                (*name, v)
            })
            .collect(),
    )
}

/// A configuration with these features and without custom sensors and commands.
fn test_config(device_name: &str, features: FeatureConfig) -> Config {
    Config {
        device_name: device_name.to_string(),
        mqtt: MqttConfig {
            broker: "tcp://localhost:1883".to_string(),
            user: String::new(),
            pass: String::new(),
            client_id: None,
        },
        intervals: IntervalConfig::default(),
        features,
        ..Config::default()
    }
}

#[test]
fn mod_test_sensor_topic() {
    let mqtt = test_client("dank0i-pc");
    assert_eq!(
        mqtt.sensor_topic("runninggames"),
        "homeassistant/sensor/dank0i-pc/runninggames/state"
    );
}

#[test]
fn mod_test_sensor_topic_custom_falls_back_to_format() {
    let mqtt = test_client("dank0i-pc");
    assert_eq!(
        mqtt.sensor_topic("custom_foo"),
        "homeassistant/sensor/dank0i-pc/custom_foo/state"
    );
}

#[test]
fn mod_test_sensor_attributes_topic() {
    let mqtt = test_client("dank0i-pc");
    assert_eq!(
        mqtt.sensor_attributes_topic("runninggames"),
        "homeassistant/sensor/dank0i-pc/runninggames/attributes"
    );
}

#[test]
fn mod_test_command_topic() {
    let mqtt = test_client("dank0i-pc");
    assert_eq!(
        mqtt.command_topic("Sleep"),
        "homeassistant/button/dank0i-pc/Sleep/action"
    );
}

#[test]
fn mod_test_availability_topic_instance() {
    let mqtt = test_client("dank0i-pc");
    assert_eq!(
        mqtt.availability_topic(),
        "homeassistant/sensor/dank0i-pc/availability"
    );
}

#[test]
fn mod_test_cached_topics_has_all_builtin_sensors() {
    let ct = CachedTopics::new("test-pc");
    let expected = [
        "runninggames",
        "lastactive",
        "screensaver",
        "display",
        "volume_level",
        "cpu_usage",
        "memory_usage",
        "steam_updating",
        "bridge_health",
        "game_catalog",
        "active_window",
        "sleep_state",
        "battery_level",
        "battery_charging",
        "gpu_usage",
        "network_throughput",
        "disk_usage",
        "system_uptime",
        "bridge_info",
        "hwinfo_diagnostic",
    ];
    for name in expected {
        assert!(
            ct.sensor_state.contains_key(name),
            "Missing cached state topic for {name}"
        );
        assert!(
            ct.sensor_attrs.contains_key(name),
            "Missing cached attrs topic for {name}"
        );
    }
}

#[test]
fn mod_test_cached_topics_correct_format() {
    let ct = CachedTopics::new("my-pc");
    assert_eq!(
        ct.availability.as_str(),
        "homeassistant/sensor/my-pc/availability"
    );
    assert_eq!(
        ct.sensor_state.get("cpu_usage").unwrap().as_str(),
        "homeassistant/sensor/my-pc/cpu_usage/state"
    );
    assert_eq!(
        ct.sensor_attrs.get("cpu_usage").unwrap().as_str(),
        "homeassistant/sensor/my-pc/cpu_usage/attributes"
    );
}

#[test]
fn mod_test_sensor_discovery_payload_json_structure() {
    let mqtt = test_client("dank0i-pc");
    let payload = HADiscoveryPayload {
        name: "CPU Usage".to_string(),
        unique_id: format!("{}_cpu_usage", mqtt.device_id()),
        state_topic: Some(mqtt.sensor_topic("cpu_usage")),
        command_topic: None,
        availability_topic: Some(mqtt.availability_topic()),
        availability: None,
        availability_mode: None,
        json_attributes_topic: None,
        device: mqtt.device(),
        icon: Some("mdi:cpu-64-bit".to_string()),
        device_class: None,
        unit_of_measurement: Some("%".to_string()),
        state_class: None,
    };

    let json = to_json(&payload.fields());

    assert_eq!(json["name"], "CPU Usage");
    assert_eq!(json["unique_id"], "dank0i_pc_cpu_usage");
    assert_eq!(
        json["state_topic"],
        "homeassistant/sensor/dank0i-pc/cpu_usage/state"
    );
    assert_eq!(
        json["availability_topic"],
        "homeassistant/sensor/dank0i-pc/availability"
    );
    assert_eq!(json["icon"], "mdi:cpu-64-bit");
    assert_eq!(json["unit_of_measurement"], "%");

    assert!(json.get("command_topic").is_none());
}

#[test]
fn mod_test_button_discovery_payload_json_structure() {
    let mqtt = test_client("dank0i-pc");
    let payload = HADiscoveryPayload {
        name: "Sleep".to_string(),
        unique_id: format!("{}_Sleep", mqtt.device_id()),
        state_topic: None,
        command_topic: Some(mqtt.command_topic("Sleep")),
        availability_topic: Some(mqtt.availability_topic()),
        availability: None,
        availability_mode: None,
        json_attributes_topic: None,
        device: mqtt.device(),
        icon: Some("mdi:power-sleep".to_string()),
        device_class: None,
        unit_of_measurement: None,
        state_class: None,
    };

    let json = to_json(&payload.fields());

    assert_eq!(json["name"], "Sleep");
    assert_eq!(json["unique_id"], "dank0i_pc_Sleep");
    assert_eq!(
        json["command_topic"],
        "homeassistant/button/dank0i-pc/Sleep/action"
    );
    assert_eq!(
        json["availability_topic"],
        "homeassistant/sensor/dank0i-pc/availability"
    );
    assert_eq!(json["icon"], "mdi:power-sleep");

    assert!(json.get("state_topic").is_none());
    assert!(json.get("unit_of_measurement").is_none());
}

#[test]
fn mod_test_sensor_with_attributes_payload() {
    let mqtt = test_client("dank0i-pc");
    let payload = HADiscoveryPayload {
        name: "Running Game".to_string(),
        unique_id: format!("{}_runninggames", mqtt.device_id()),
        state_topic: Some(mqtt.sensor_topic("runninggames")),
        command_topic: None,
        availability_topic: Some(mqtt.availability_topic()),
        availability: None,
        availability_mode: None,
        json_attributes_topic: Some(mqtt.sensor_attributes_topic("runninggames")),
        device: mqtt.device(),
        icon: Some("mdi:gamepad-variant".to_string()),
        device_class: None,
        unit_of_measurement: None,
        state_class: None,
    };

    let json = to_json(&payload.fields());

    assert_eq!(
        json["json_attributes_topic"],
        "homeassistant/sensor/dank0i-pc/runninggames/attributes"
    );
    assert_eq!(
        json["state_topic"],
        "homeassistant/sensor/dank0i-pc/runninggames/state"
    );
}

#[test]
fn mod_test_device_block_in_discovery() {
    let mqtt = test_client("dank0i-pc");
    let payload = HADiscoveryPayload {
        name: "Test".to_string(),
        unique_id: format!("{}_test", mqtt.device_id()),
        state_topic: Some(mqtt.sensor_topic("test")),
        command_topic: None,
        availability_topic: Some(mqtt.availability_topic()),
        availability: None,
        availability_mode: None,
        json_attributes_topic: None,
        device: mqtt.device(),
        icon: None,
        device_class: None,
        unit_of_measurement: None,
        state_class: None,
    };

    let json = to_json(&payload.fields());
    let device = &json["device"];

    assert_eq!(device["identifiers"], Value::from(vec!["dank0i_pc"]));
    assert_eq!(device["name"], "dank0i-pc");
    assert_eq!(device["manufacturer"], "dank0i");
    assert_eq!(device["sw_version"], VERSION);
    assert!(
        device["model"].as_str().unwrap().starts_with("PC Bridge v"),
        "model should start with 'PC Bridge v'"
    );
}

#[test]
fn mod_test_sleep_state_has_no_availability() {
    let mqtt = test_client("dank0i-pc");
    let payload = HADiscoveryPayload {
        name: "Sleep State".to_string(),
        unique_id: format!("{}_sleep_state", mqtt.device_id()),
        state_topic: Some(mqtt.sensor_topic("sleep_state")),
        command_topic: None,
        availability_topic: None,
        availability: None,
        availability_mode: None,
        json_attributes_topic: None,
        device: mqtt.device(),
        icon: Some("mdi:power-sleep".to_string()),
        device_class: None,
        unit_of_measurement: None,
        state_class: None,
    };

    let json = to_json(&payload.fields());

    assert!(
        json.get("availability_topic").is_none(),
        "sleep_state should NOT have availability_topic"
    );
    assert_eq!(
        json["state_topic"],
        "homeassistant/sensor/dank0i-pc/sleep_state/state"
    );
}

#[test]
fn mod_test_optional_fields_omitted_when_none() {
    let payload = HADiscoveryPayload {
        name: "Test".to_string(),
        unique_id: "test_id".to_string(),
        state_topic: None,
        command_topic: None,
        availability_topic: None,
        availability: None,
        availability_mode: None,
        json_attributes_topic: None,
        device: HADevice {
            identifiers: vec!["test".to_string()],
            name: "test".to_string(),
            model: "test".to_string(),
            manufacturer: "test".to_string(),
            sw_version: "0.0.0".to_string(),
        },
        icon: None,
        device_class: None,
        unit_of_measurement: None,
        state_class: None,
    };

    let json_str = to_json(&payload.fields()).to_string();
    assert!(
        !json_str.contains("state_topic"),
        "None fields should be skipped"
    );
    assert!(!json_str.contains("command_topic"));
    assert!(!json_str.contains("availability_topic"));
    assert!(!json_str.contains("json_attributes_topic"));
    assert!(!json_str.contains("icon"));
    assert!(!json_str.contains("device_class"));
    assert!(!json_str.contains("unit_of_measurement"));
}

#[test]
fn mod_test_sensor_with_device_class() {
    let mqtt = test_client("dank0i-pc");
    let payload = HADiscoveryPayload {
        name: "Last Active".to_string(),
        unique_id: format!("{}_lastactive", mqtt.device_id()),
        state_topic: Some(mqtt.sensor_topic("lastactive")),
        command_topic: None,
        availability_topic: Some(mqtt.availability_topic()),
        availability: None,
        availability_mode: None,
        json_attributes_topic: None,
        device: mqtt.device(),
        icon: Some("mdi:clock-outline".to_string()),
        device_class: Some("timestamp".to_string()),
        unit_of_measurement: None,
        state_class: None,
    };

    let json = to_json(&payload.fields());
    assert_eq!(json["device_class"], "timestamp");
}

#[test]
fn mod_test_custom_sensor_discovery_payload() {
    let mqtt = test_client("dank0i-pc");
    let sensor = CustomSensor {
        name: "gpu_power".to_string(),
        sensor_type: config::CustomSensorType::Powershell,
        interval_seconds: 10,
        unit: Some("W".to_string()),
        icon: Some("mdi:lightning-bolt".to_string()),
        script: Some("Get-GpuPower".to_string()),
        process: None,
        file_path: None,
        registry_key: None,
        registry_value: None,
    };

    let topic_name = format!("custom_{}", sensor.name);
    let payload = HADiscoveryPayload {
        name: format!("Custom: {}", sensor.name),
        unique_id: format!("{}_{}", mqtt.device_id(), topic_name),
        state_topic: Some(mqtt.sensor_topic(&topic_name)),
        command_topic: None,
        availability_topic: Some(mqtt.availability_topic()),
        availability: None,
        availability_mode: None,
        device: mqtt.device(),
        icon: sensor.icon.clone(),
        device_class: None,
        unit_of_measurement: sensor.unit.clone(),
        state_class: derive_state_class(None, sensor.unit.as_deref()),
        json_attributes_topic: None,
    };

    let json = to_json(&payload.fields());

    assert_eq!(json["name"], "Custom: gpu_power");
    assert_eq!(json["unique_id"], "dank0i_pc_custom_gpu_power");
    assert_eq!(
        json["state_topic"],
        "homeassistant/sensor/dank0i-pc/custom_gpu_power/state"
    );
    assert_eq!(json["unit_of_measurement"], "W");
    assert_eq!(json["icon"], "mdi:lightning-bolt");
}

#[test]
fn mod_test_custom_command_discovery_payload() {
    let mqtt = test_client("dank0i-pc");
    let cmd = CustomCommand {
        name: "reboot_router".to_string(),
        command_type: config::CustomCommandType::Shell,
        icon: Some("mdi:router-wireless".to_string()),
        admin: false,
        script: None,
        path: None,
        args: None,
        command: Some("reboot-router.sh".to_string()),
    };

    let payload = HADiscoveryPayload {
        name: format!("Custom: {}", cmd.name),
        unique_id: format!("{}_custom_{}", mqtt.device_id(), cmd.name),
        state_topic: None,
        command_topic: Some(mqtt.command_topic(&cmd.name)),
        availability_topic: Some(mqtt.availability_topic()),
        availability: None,
        availability_mode: None,
        device: mqtt.device(),
        icon: cmd.icon.clone(),
        device_class: None,
        unit_of_measurement: None,
        state_class: None,
        json_attributes_topic: None,
    };

    let json = to_json(&payload.fields());

    assert_eq!(json["name"], "Custom: reboot_router");
    assert_eq!(json["unique_id"], "dank0i_pc_custom_reboot_router");
    assert_eq!(
        json["command_topic"],
        "homeassistant/button/dank0i-pc/reboot_router/action"
    );
    assert!(json.get("state_topic").is_none());
}

#[test]
fn mod_test_notify_service_payload_structure() {
    let mqtt = test_client("dank0i-pc");
    let registration = mqtt.register_notify_service();
    let payload = match registration.body {
        RegistrationBody::Notify(n) => to_json(&n.fields()),
        RegistrationBody::Entity(_) => panic!("the notify service is no entity"),
    };

    assert_eq!(
        payload["command_topic"],
        "pc-bridge/notifications/dank0i-pc"
    );
    assert_eq!(payload["unique_id"], "dank0i_pc_notify");
    assert_eq!(payload["icon"], "mdi:message-badge");
    assert_eq!(payload["qos"], 1);
    assert!(
        !payload["command_topic"]
            .as_str()
            .unwrap()
            .starts_with("homeassistant/"),
        "Notify command_topic should be pc-bridge/notifications/, not homeassistant/"
    );
}

#[test]
fn mod_test_subscribe_topics_default_features() {
    let config = test_config("test-pc", FeatureConfig::default());
    let topics = MqttClient::build_subscribe_topics("test-pc", &config);

    assert!(topics.contains(&"homeassistant/button/test-pc/Sleep/action".to_string()));
    assert!(topics.contains(&"homeassistant/button/test-pc/Shutdown/action".to_string()));
    assert!(topics.contains(&"homeassistant/button/test-pc/Lock/action".to_string()));
    assert!(topics.contains(&"homeassistant/button/test-pc/Restart/action".to_string()));
    assert!(topics.contains(&"homeassistant/button/test-pc/Hibernate/action".to_string()));

    assert!(
        !topics.contains(&"homeassistant/button/test-pc/RefreshSteamGames/action".to_string())
    );
    assert!(!topics.contains(&"homeassistant/button/test-pc/Launch/action".to_string()));

    assert!(
        !topics.contains(&"homeassistant/button/test-pc/MediaPlayPause/action".to_string())
    );
    assert!(!topics.contains(&"homeassistant/button/test-pc/VolumeMute/action".to_string()));

    assert!(!topics.contains(&"pc-bridge/notifications/test-pc".to_string()));
}

#[test]
fn test_subscribe_topics_match_executor_gate() {
    let features = FeatureConfig {
        steam_library: true,
        launch_game: true,
        discord: true,
        volume: true,
        ..FeatureConfig::default()
    };
    let config = test_config("test-pc", features);
    let topics = MqttClient::build_subscribe_topics("test-pc", &config);

    for cmd in native_command_list() {
        let topic = format!("homeassistant/button/test-pc/{cmd}/action");
        let subscribed = topics.contains(&topic);
        let gated_on = command_feature_enabled(cmd, &config.features);
        assert_eq!(subscribed, gated_on, "subscribe/execute mismatch for {cmd}");
    }
}

#[test]
fn mod_test_subscribe_topics_with_audio() {
    let features = FeatureConfig {
        volume: true,
        media_controls: true,
        ..FeatureConfig::default()
    };
    let config = test_config("test-pc", features);
    let topics = MqttClient::build_subscribe_topics("test-pc", &config);

    assert!(topics.contains(&"homeassistant/button/test-pc/MediaPlayPause/action".to_string()));
    assert!(topics.contains(&"homeassistant/button/test-pc/MediaNext/action".to_string()));
    assert!(topics.contains(&"homeassistant/button/test-pc/MediaPrevious/action".to_string()));
    assert!(topics.contains(&"homeassistant/button/test-pc/MediaStop/action".to_string()));
    assert!(topics.contains(&"homeassistant/button/test-pc/VolumeMute/action".to_string()));
}

#[test]
fn mod_test_subscribe_topics_with_notifications() {
    let features = FeatureConfig {
        notifications: true,
        ..FeatureConfig::default()
    };
    let config = test_config("test-pc", features);
    let topics = MqttClient::build_subscribe_topics("test-pc", &config);

    assert!(topics.contains(&"pc-bridge/notifications/test-pc".to_string()));
}

#[test]
fn mod_test_subscribe_topics_with_custom_commands() {
    let features = FeatureConfig::default();
    let mut config = test_config("test-pc", features);
    config.custom_commands = vec![
        CustomCommand {
            name: "reboot_router".to_string(),
            command_type: config::CustomCommandType::Shell,
            icon: None,
            admin: false,
            script: None,
            path: None,
            args: None,
            command: Some("echo test".to_string()),
        },
        CustomCommand {
            name: "backup_db".to_string(),
            command_type: config::CustomCommandType::Shell,
            icon: None,
            admin: false,
            script: None,
            path: None,
            args: None,
            command: Some("echo backup".to_string()),
        },
    ];

    let topics = MqttClient::build_subscribe_topics("test-pc", &config);

    assert!(topics.contains(&"homeassistant/button/test-pc/reboot_router/action".to_string()));
    assert!(topics.contains(&"homeassistant/button/test-pc/backup_db/action".to_string()));
}

#[test]
fn mod_test_subscribe_topics_all_features_enabled() {
    let features = FeatureConfig {
        running_game: true,
        game_catalog: true,
        steam_library: true,
        launch_game: true,
        close_game: true,
        idle_tracking: true,
        sleep_wake: true,
        display_state: true,
        cmd_shutdown: true,
        cmd_restart: true,
        cmd_sleep: true,
        cmd_lock: true,
        cmd_logoff: true,
        cmd_monitor: true,
        notifications: true,
        cpu_sensor: true,
        memory_sensor: true,
        active_window: true,
        session_state: true,
        audio_device: true,
        mic: true,
        webcam: true,
        now_playing: true,
        volume: true,
        media_controls: true,
        steam_updates: true,
        discord: true,
        gpu_sensor: true,
        network_sensor: true,
        disk_sensor: true,
        uptime_sensor: true,
        hwinfo_sensor: true,
        manage_hwinfo: true,
    };
    let config = test_config("test-pc", features);
    let topics = MqttClient::build_subscribe_topics("test-pc", &config);

    assert!(
        topics.len() >= 21,
        "Expected at least 21 topics with all features, got {}",
        topics.len()
    );
}

#[test]
fn mod_test_sensor_config_topic_format() {
    let topic = config_topic_of("sensor", "dank0i-pc", "cpu_usage");
    assert_eq!(topic, "homeassistant/sensor/dank0i-pc/cpu_usage/config");
}

#[test]
fn mod_test_button_config_topic_format() {
    let topic = config_topic_of("button", "dank0i-pc", "Sleep");
    assert_eq!(topic, "homeassistant/button/dank0i-pc/Sleep/config");
}

#[test]
fn mod_test_notify_config_topic_format() {
    let topic = notify_config_topic_of("dank0i-pc");
    assert_eq!(topic, "homeassistant/notify/dank0i-pc/config");
}

#[test]
fn mod_test_discovery_payload_roundtrip_is_valid_json() {
    let mqtt = test_client("dank0i-pc");
    let payload = HADiscoveryPayload {
        name: "Battery Level".to_string(),
        unique_id: format!("{}_battery_level", mqtt.device_id()),
        state_topic: Some(mqtt.sensor_topic("battery_level")),
        command_topic: None,
        availability_topic: Some(mqtt.availability_topic()),
        availability: None,
        availability_mode: None,
        json_attributes_topic: None,
        device: mqtt.device(),
        icon: Some("mdi:battery".to_string()),
        device_class: Some("battery".to_string()),
        unit_of_measurement: Some("%".to_string()),
        state_class: None,
    };

    let json_str = to_json(&payload.fields()).to_string();
    let parsed: serde_json::Value = serde_json::from_str(&json_str).unwrap();
    assert!(parsed.is_object());
    assert!(parsed.as_object().unwrap().len() >= 5);
}

#[test]
fn mod_test_lwt_topic_and_payload() {
    let topic = MqttClient::availability_topic_static("dank0i-pc");
    assert_eq!(topic, "homeassistant/sensor/dank0i-pc/availability");

    let payload = availability_payload(false);
    assert_eq!(payload, "offline");
}

#[test]
fn mod_test_availability_content_online() {
    let payload = availability_payload(true);
    assert_eq!(payload, "online");
    assert_eq!(payload.len(), 6);
}

#[test]
fn mod_test_availability_content_offline() {
    let payload = availability_payload(false);
    assert_eq!(payload, "offline");
    assert_eq!(payload.len(), 7);
}

#[test]
fn mod_test_sleep_state_content_awake() {
    let value = "awake";
    let mqtt = test_client("dank0i-pc");
    let topic = mqtt.sensor_topic("sleep_state");
    assert_eq!(topic, "homeassistant/sensor/dank0i-pc/sleep_state/state");
    assert_eq!(value, "awake");
}

#[test]
fn mod_test_sleep_state_content_sleeping() {
    let value = "sleeping";
    let mqtt = test_client("dank0i-pc");
    let topic = mqtt.sensor_topic("sleep_state");
    assert_eq!(topic, "homeassistant/sensor/dank0i-pc/sleep_state/state");
    assert_eq!(value, "sleeping");
}

#[test]
fn mod_test_screensaver_content_values() {
    let active = true;
    let state_str = if active { "on" } else { "off" };
    assert_eq!(state_str, "on");

    let inactive = false;
    let state_str = if inactive { "on" } else { "off" };
    assert_eq!(state_str, "off");
}

#[test]
fn mod_test_screensaver_topic() {
    let mqtt = test_client("dank0i-pc");
    let topic = mqtt.sensor_topic("screensaver");
    assert_eq!(topic, "homeassistant/sensor/dank0i-pc/screensaver/state");
}

#[test]
fn mod_test_cpu_usage_format() {
    let cpu: f64 = 45.372;
    let cpu_str = format!("{cpu:.1}");
    assert_eq!(cpu_str, "45.4"); // rounded to 1 decimal

    let cpu_zero: f64 = 0.0;
    assert_eq!(format!("{cpu_zero:.1}"), "0.0");

    let cpu_full: f64 = 100.0;
    assert_eq!(format!("{cpu_full:.1}"), "100.0");
}

#[test]
fn mod_test_memory_usage_format() {
    let mem: f64 = 67.89;
    let mem_str = format!("{mem:.1}");
    assert_eq!(mem_str, "67.9");
}

#[test]
fn mod_test_battery_level_format() {
    let percent: u8 = 85;
    let level_str = percent.to_string();
    assert_eq!(level_str, "85");
}

#[test]
fn mod_test_battery_charging_format() {
    let charging = true;
    let charging_str = if charging { "true" } else { "false" };
    assert_eq!(charging_str, "true");

    let not_charging = false;
    let charging_str = if not_charging { "true" } else { "false" };
    assert_eq!(charging_str, "false");
}

#[test]
fn mod_test_agent_memory_format() {
    let memory_mb: f64 = 12.345;
    let value = format!("{memory_mb:.1}");
    assert_eq!(value, "12.3");
}

#[test]
fn mod_test_custom_sensor_topic_prefix() {
    let sensor_name = "my_sensor";
    let topic_name = format!("custom_{sensor_name}");
    assert_eq!(topic_name, "custom_my_sensor");

    let mqtt = test_client("dank0i-pc");
    let topic = mqtt.sensor_topic(&topic_name);
    assert_eq!(
        topic,
        "homeassistant/sensor/dank0i-pc/custom_my_sensor/state"
    );
}

#[test]
fn mod_test_display_state_content() {
    let value = "on";
    let mqtt = test_client("dank0i-pc");
    let topic = mqtt.sensor_topic("display");
    assert_eq!(topic, "homeassistant/sensor/dank0i-pc/display/state");
    assert_eq!(value, "on");
}

#[test]
fn mod_test_game_sensor_content_and_topic() {
    let mqtt = test_client("dank0i-pc");
    let state_topic = mqtt.sensor_topic("runninggames");
    let attrs_topic = mqtt.sensor_attributes_topic("runninggames");

    assert_eq!(
        state_topic,
        "homeassistant/sensor/dank0i-pc/runninggames/state"
    );
    assert_eq!(
        attrs_topic,
        "homeassistant/sensor/dank0i-pc/runninggames/attributes"
    );

    let no_game_payload = "none";
    let no_game_attrs = object(vec![("display_name", Value::from("None"))]);
    assert_eq!(no_game_payload, "none");
    assert_eq!(
        serde_json::to_string(&no_game_attrs).unwrap(),
        r#"{"display_name":"None"}"#
    );

    let game_payload = "battlefield_6";
    let game_attrs = object(vec![("display_name", Value::from("Battlefield 2042"))]);
    assert_eq!(game_payload, "battlefield_6");
    assert_eq!(
        serde_json::to_string(&game_attrs).unwrap(),
        r#"{"display_name":"Battlefield 2042"}"#
    );
}

#[test]
fn mod_test_steam_updating_content_and_topic() {
    let mqtt = test_client("dank0i-pc");
    let state_topic = mqtt.sensor_topic("steam_updating");
    let attrs_topic = mqtt.sensor_attributes_topic("steam_updating");

    assert_eq!(
        state_topic,
        "homeassistant/sensor/dank0i-pc/steam_updating/state"
    );
    assert_eq!(
        attrs_topic,
        "homeassistant/sensor/dank0i-pc/steam_updating/attributes"
    );

    let idle_payload = "off";
    let idle_attrs = object(vec![
        ("updating_games", Value::from(Vec::<String>::new())),
        ("count", Value::from(0)),
    ]);
    assert_eq!(idle_payload, "off");
    assert_eq!(idle_attrs["count"], 0);
    assert!(idle_attrs["updating_games"].as_array().unwrap().is_empty());

    let updating_payload = "on";
    let updating_attrs = object(vec![
        ("updating_games", Value::from(vec!["Counter-Strike 2"])),
        ("count", Value::from(1)),
    ]);
    assert_eq!(updating_payload, "on");
    assert_eq!(updating_attrs["count"], 1);
    assert_eq!(updating_attrs["updating_games"][0], "Counter-Strike 2");
}

#[test]
fn mod_test_sensor_attributes_serializes_to_bytes() {
    let attrs = object(vec![("display_name", Value::from("HELLDIVERS 2"))]);

    let vec_bytes = serde_json::to_vec(&attrs).unwrap();
    let string_bytes = serde_json::to_string(&attrs).unwrap().into_bytes();

    assert_eq!(vec_bytes, string_bytes);
    assert_eq!(
        String::from_utf8(vec_bytes).unwrap(),
        r#"{"display_name":"HELLDIVERS 2"}"#
    );
}

#[test]
fn mod_test_parse_broker_url_tcp() {
    let (host, port, tls) = MqttClient::parse_broker_url("tcp://localhost:1883");
    assert_eq!(host, "localhost");
    assert_eq!(port, 1883);
    assert!(!tls);
}

#[test]
fn mod_test_parse_broker_url_ssl() {
    let (host, port, tls) =
        MqttClient::parse_broker_url("ssl://mqtt.example.com:8883");
    assert_eq!(host, "mqtt.example.com");
    assert_eq!(port, 8883);
    assert!(tls);
}

#[test]
fn mod_test_parse_broker_url_ws() {
    let (host, port, tls) = MqttClient::parse_broker_url("ws://192.168.1.100:8083");
    assert_eq!(host, "192.168.1.100");
    assert_eq!(port, 8083);
    assert!(!tls);
}

#[test]
fn mod_test_parse_broker_url_wss() {
    let (host, port, tls) =
        MqttClient::parse_broker_url("wss://mqtt.example.com:8084");
    assert_eq!(host, "mqtt.example.com");
    assert_eq!(port, 8084);
    assert!(tls);
}

#[test]
fn mod_test_parse_broker_url_default_port() {
    let (host, port, tls) = MqttClient::parse_broker_url("tcp://localhost");
    assert_eq!(host, "localhost");
    assert_eq!(port, 1883);
    assert!(!tls);
}

#[test]
fn test_parse_broker_url_default_port_ssl() {
    let (host, port, tls) = MqttClient::parse_broker_url("ssl://broker.local");
    assert_eq!(host, "broker.local");
    assert_eq!(port, 8883);
    assert!(tls);
}

#[test]
fn mod_test_parse_broker_url_ipv4() {
    let (host, port, tls) = MqttClient::parse_broker_url("tcp://192.168.1.1:1883");
    assert_eq!(host, "192.168.1.1");
    assert_eq!(port, 1883);
    assert!(!tls);
}

#[test]
fn mod_test_extract_command_name_button() {
    let topic = "homeassistant/button/dank0i-pc/Sleep/action";
    let cmd = MqttClient::extract_command_name(topic, "dank0i-pc");
    assert_eq!(cmd, Some("Sleep".to_string()));
}

#[test]
fn mod_test_extract_command_name_shutdown() {
    let topic = "homeassistant/button/dank0i-pc/Shutdown/action";
    let cmd = MqttClient::extract_command_name(topic, "dank0i-pc");
    assert_eq!(cmd, Some("Shutdown".to_string()));
}

#[test]
fn mod_test_extract_command_name_nested() {
    let topic = "homeassistant/button/my-pc/launch_game/action";
    let cmd = MqttClient::extract_command_name(topic, "my-pc");
    assert_eq!(cmd, Some("launch_game".to_string()));
}

#[test]
fn mod_test_extract_command_name_notification() {
    let topic = "pc-bridge/notifications/dank0i-pc";
    let cmd = MqttClient::extract_command_name(topic, "dank0i-pc");
    assert_eq!(cmd, Some("notification".to_string()));
}

#[test]
fn mod_test_extract_command_name_wrong_device() {
    let topic = "homeassistant/button/other-pc/sleep/action";
    let cmd = MqttClient::extract_command_name(topic, "dank0i-pc");
    assert_eq!(cmd, None);
}

#[test]
fn mod_test_extract_command_name_wrong_format() {
    let topic = "homeassistant/sensor/dank0i-pc/state";
    let cmd = MqttClient::extract_command_name(topic, "dank0i-pc");
    assert_eq!(cmd, None);
}

#[test]
fn mod_test_availability_topic_static() {
    let topic = MqttClient::availability_topic_static("test-pc");
    assert_eq!(topic, "homeassistant/sensor/test-pc/availability");
}

#[test]
fn mod_test_command_struct() {
    let cmd = Command {
        name: "Sleep".to_string(),
        payload: "".to_string(),
    };
    assert_eq!(cmd.name, "Sleep");
    assert!(cmd.payload.is_empty());
}

#[test]
fn mod_test_command_with_payload() {
    let cmd = Command {
        name: "notification".to_string(),
        payload: r#"{"title":"Test","message":"Hello"}"#.to_string(),
    };
    assert_eq!(cmd.name, "notification");
    assert!(cmd.payload.contains("Test"));
}

#[test]
fn test_state_class_serialized_in_payload() {
    let mqtt = test_client("dank0i-pc");
    let payload = HADiscoveryPayload {
        name: "GPU Power".to_string(),
        unique_id: format!("{}_gpu_power", mqtt.device_id()),
        state_topic: Some(mqtt.sensor_topic("gpu_power")),
        command_topic: None,
        availability_topic: Some(mqtt.availability_topic()),
        availability: None,
        availability_mode: None,
        json_attributes_topic: None,
        device: mqtt.device(),
        icon: Some("mdi:flash".to_string()),
        device_class: Some("power".to_string()),
        unit_of_measurement: Some("W".to_string()),
        state_class: Some("measurement".to_string()),
    };
    let json = to_json(&payload.fields());
    assert_eq!(json["state_class"], "measurement");
}

#[test]
fn test_state_class_omitted_when_none() {
    let mqtt = test_client("dank0i-pc");
    let payload = HADiscoveryPayload {
        name: "Sleep State".to_string(),
        unique_id: format!("{}_sleep_state", mqtt.device_id()),
        state_topic: Some(mqtt.sensor_topic("sleep_state")),
        command_topic: None,
        availability_topic: None,
        availability: None,
        availability_mode: None,
        json_attributes_topic: None,
        device: mqtt.device(),
        icon: Some("mdi:power-sleep".to_string()),
        device_class: None,
        unit_of_measurement: None,
        state_class: None,
    };
    let json = to_json(&payload.fields());
    assert!(json.get("state_class").is_none());
}

fn all_features() -> FeatureConfig {
    FeatureConfig {
        running_game: true,
        game_catalog: true,
        steam_library: true,
        launch_game: true,
        close_game: true,
        idle_tracking: true,
        sleep_wake: true,
        display_state: true,
        cmd_shutdown: true,
        cmd_restart: true,
        cmd_sleep: true,
        cmd_lock: true,
        cmd_logoff: true,
        cmd_monitor: true,
        notifications: true,
        cpu_sensor: true,
        memory_sensor: true,
        active_window: true,
        session_state: true,
        audio_device: true,
        mic: true,
        webcam: true,
        now_playing: true,
        volume: true,
        media_controls: true,
        steam_updates: true,
        discord: true,
        gpu_sensor: true,
        network_sensor: true,
        disk_sensor: true,
        uptime_sensor: true,
        hwinfo_sensor: true,
        manage_hwinfo: true,
    }
}

#[test]
fn test_discovery_registers_all_sensors() {
    let client = test_client("test-pc");
    let topics: Vec<String> = client
        .register_discovery(&all_features(), false)
        .into_iter()
        .map(|r| r.topic)
        .collect();

    let expected_sensors = [
        "runninggames",
        "lastactive",
        "screensaver",
        "sleep_state",
        "display",
        "cpu_usage",
        "memory_usage",
        "battery_level",
        "battery_charging",
        "active_window",
        "steam_updating",
        "volume_level",
    ];
    let expected_buttons = [
        "Launch",
        "Screensaver",
        "Wake",
        "Shutdown",
        "Sleep",
        "Lock",
        "Hibernate",
        "Restart",
        "DiscordJoin",
        "DiscordLeaveChannel",
        "MediaPlayPause",
        "MediaNext",
        "MediaPrevious",
        "MediaStop",
        "VolumeMute",
    ];
    for sensor in expected_sensors {
        let t = format!("homeassistant/sensor/test-pc/{sensor}/config");
        assert!(topics.contains(&t), "Missing discovery for sensor: {sensor}");
    }
    for button in expected_buttons {
        let t = format!("homeassistant/button/test-pc/{button}/config");
        assert!(topics.contains(&t), "Missing discovery for button: {button}");
    }
    assert!(
        topics.contains(&"homeassistant/notify/test-pc/config".to_string()),
        "Missing notify service discovery"
    );
}

#[test]
fn test_subscribes_all_command_topics() {
    let config = test_config("test-pc", all_features());
    let client = test_client("test-pc");
    let topics: Vec<String> = client
        .announce(&config, VERSION, "linux", "x86_64")
        .into_iter()
        .filter_map(|s| match s {
            AnnounceStep::Subscribe(t) => Some(t),
            AnnounceStep::Publish(_) => None,
        })
        .collect();

    let expected = [
        "homeassistant/button/test-pc/Launch/action",
        "homeassistant/button/test-pc/RefreshSteamGames/action",
        "homeassistant/button/test-pc/Screensaver/action",
        "homeassistant/button/test-pc/Wake/action",
        "homeassistant/button/test-pc/Shutdown/action",
        "homeassistant/button/test-pc/Sleep/action",
        "homeassistant/button/test-pc/Lock/action",
        "homeassistant/button/test-pc/Hibernate/action",
        "homeassistant/button/test-pc/Restart/action",
        "homeassistant/button/test-pc/DiscordJoin/action",
        "homeassistant/button/test-pc/DiscordLeaveChannel/action",
        "homeassistant/button/test-pc/MediaPlayPause/action",
        "homeassistant/button/test-pc/MediaNext/action",
        "homeassistant/button/test-pc/MediaPrevious/action",
        "homeassistant/button/test-pc/MediaStop/action",
        "homeassistant/button/test-pc/VolumeMute/action",
        "pc-bridge/notifications/test-pc",
    ];
    for topic in expected {
        assert!(
            topics.contains(&topic.to_string()),
            "Missing subscribe for: {topic}"
        );
    }
}

/// The command that a message leads to.
fn delivered(topic: &str, payload: &str) -> Option<Command> {
    let client = test_client("test-pc");
    let event = Incoming::Publish {
        topic: topic.to_string(),
        payload: payload.as_bytes().to_vec(),
    };
    match EventLoop::new().on_event(&client, &event) {
        Reaction::Deliver(c) => Some(c),
        _ => None,
    }
}

#[test]
fn test_command_routing_button() {
    let cmd = delivered("homeassistant/button/test-pc/Sleep/action", "")
        .expect("the command is delivered");
    assert_eq!(cmd.name, "Sleep");
    assert!(cmd.payload.is_empty());
}

#[test]
fn test_command_routing_notification_with_payload() {
    let payload = r#"{"title":"Test","message":"Hello from HA"}"#;
    let cmd =
        delivered("pc-bridge/notifications/test-pc", payload).expect("the command is delivered");
    assert_eq!(cmd.name, "notification");
    assert_eq!(cmd.payload, payload);
}

#[test]
fn test_ignores_messages_for_wrong_device() {
    assert!(delivered("homeassistant/button/other-pc/Sleep/action", "").is_none());
    let cmd = delivered("homeassistant/button/test-pc/Shutdown/action", "")
        .expect("the command is delivered");
    assert_eq!(cmd.name, "Shutdown");
}

#[test]
fn test_availability_published_on_connect() {
    let config = test_config("test-pc", FeatureConfig::default());
    let client = test_client("test-pc");
    let availability = client
        .announce(&config, VERSION, "linux", "x86_64")
        .into_iter()
        .find_map(|s| match s {
            AnnounceStep::Publish(m)
                if m.topic == "homeassistant/sensor/test-pc/availability" =>
            {
                Some(m)
            }
            _ => None,
        })
        .expect("Availability not published");
    assert_eq!(availability.payload, "online");
    assert!(availability.retained);
}
