//! Topics, discovery payloads and subscriptions of the feature groups.

use pc_bridge::config;
use pc_bridge::config::{CustomCommand, CustomSensor};
use pc_bridge::mqtt::discovery::RegistrationBody;
use pc_bridge::mqtt::groups::{unregister_entity, FeatureGroups};
use pc_bridge::mqtt::payload::{HADevice, HADiscoveryPayload, WireValue};
use pc_bridge::mqtt::session::availability_payload;
use pc_bridge::mqtt::topics::{config_topic_of, notify_config_topic_of, CachedTopics};
use pc_bridge::mqtt::{Command, MqttClient};
use serde_json::Value;

const VERSION: &str = "2.14.0";

/// The client of a device.
fn test_client(device_name: &str) -> MqttClient {
    MqttClient::for_device(device_name, VERSION)
}

/// A JSON object with these members.
fn object(members: Vec<(&str, Value)>) -> Value {
    Value::Object(
        members
            .into_iter()
            .map(|(k, v)| (k.to_string(), v))
            .collect(),
    )
}

/// The JSON object that the fields of a payload make.
fn to_json(fields: &[(&'static str, WireValue)]) -> Value {
    object(
        fields
            .iter()
            .map(|(name, value)| {
                let v = match value {
                    WireValue::Text(t) => Value::from(t.as_str()),
                    WireValue::Number(n) => Value::from(*n),
                    WireValue::Topics(topics) => Value::Array(
                        topics
                            .iter()
                            .map(|t| object(vec![("topic", Value::from(t.as_str()))]))
                            .collect(),
                    ),
                    WireValue::Device(d) => object(vec![
                        ("identifiers", Value::from(d.identifiers.clone())),
                        ("name", Value::from(d.name.as_str())),
                        ("model", Value::from(d.model.as_str())),
                        ("manufacturer", Value::from(d.manufacturer.as_str())),
                        ("sw_version", Value::from(d.sw_version.as_str())),
                    ]),
                };
                (*name, v)
            })
            .collect(),
    )
}

#[test]
fn mqtt_test_sensor_topic() {
    let mqtt = test_client("dank0i-pc");
    assert_eq!(
        mqtt.sensor_topic("runninggames"),
        "homeassistant/sensor/dank0i-pc/runninggames/state"
    );
}

#[test]
fn mqtt_test_sensor_topic_custom_falls_back_to_format() {
    let mqtt = test_client("dank0i-pc");
    assert_eq!(
        mqtt.sensor_topic("custom_foo"),
        "homeassistant/sensor/dank0i-pc/custom_foo/state"
    );
}

#[test]
fn mqtt_test_sensor_attributes_topic() {
    let mqtt = test_client("dank0i-pc");
    assert_eq!(
        mqtt.sensor_attributes_topic("runninggames"),
        "homeassistant/sensor/dank0i-pc/runninggames/attributes"
    );
}

#[test]
fn mqtt_test_command_topic() {
    let mqtt = test_client("dank0i-pc");
    assert_eq!(
        mqtt.command_topic("sleep"),
        "homeassistant/button/dank0i-pc/sleep/action"
    );
}

#[test]
fn mqtt_test_availability_topic_instance() {
    let mqtt = test_client("dank0i-pc");
    assert_eq!(
        mqtt.availability_topic(),
        "homeassistant/sensor/dank0i-pc/availability"
    );
}

#[test]
fn mqtt_test_cached_topics_has_all_builtin_sensors() {
    let ct = CachedTopics::new("test-pc");
    let expected = [
        "runninggames",
        "lastactive",
        "screensaver",
        "display",
        "volume_level",
        "cpu_usage",
        "memory_usage",
        "gpu_temp",
        "steam_updating",
    ];
    for name in expected {
        assert!(
            ct.sensor_state.contains_key(name),
            "Missing cached state topic for {name}"
        );
        assert!(
            ct.sensor_attrs.contains_key(name),
            "Missing cached attrs topic for {name}"
        );
    }
}

#[test]
fn mqtt_test_cached_topics_correct_format() {
    let ct = CachedTopics::new("my-pc");
    assert_eq!(
        ct.availability.as_str(),
        "homeassistant/sensor/my-pc/availability"
    );
    assert_eq!(
        ct.sensor_state.get("cpu_usage").unwrap().as_str(),
        "homeassistant/sensor/my-pc/cpu_usage/state"
    );
    assert_eq!(
        ct.sensor_attrs.get("cpu_usage").unwrap().as_str(),
        "homeassistant/sensor/my-pc/cpu_usage/attributes"
    );
}

#[test]
fn mqtt_test_sensor_discovery_payload_json_structure() {
    let mqtt = test_client("dank0i-pc");
    let payload = HADiscoveryPayload {
        name: "CPU Usage".to_string(),
        unique_id: format!("{}_cpu_usage", mqtt.device_id()),
        state_topic: Some(mqtt.sensor_topic("cpu_usage")),
        command_topic: None,
        availability_topic: Some(mqtt.availability_topic()),
        availability: None,
        availability_mode: None,
        json_attributes_topic: None,
        device: mqtt.device(),
        icon: Some("mdi:cpu-64-bit".to_string()),
        device_class: None,
        unit_of_measurement: Some("%".to_string()),
        state_class: None,
    };

    let json = to_json(&payload.fields());

    assert_eq!(json["name"], "CPU Usage");
    assert_eq!(json["unique_id"], "dank0i_pc_cpu_usage");
    assert_eq!(
        json["state_topic"],
        "homeassistant/sensor/dank0i-pc/cpu_usage/state"
    );
    assert_eq!(
        json["availability_topic"],
        "homeassistant/sensor/dank0i-pc/availability"
    );
    assert_eq!(json["icon"], "mdi:cpu-64-bit");
    assert_eq!(json["unit_of_measurement"], "%");

    assert!(json.get("command_topic").is_none());
}

#[test]
fn mqtt_test_button_discovery_payload_json_structure() {
    let mqtt = test_client("dank0i-pc");
    let payload = HADiscoveryPayload {
        name: "sleep".to_string(),
        unique_id: format!("{}_sleep", mqtt.device_id()),
        state_topic: None,
        command_topic: Some(mqtt.command_topic("sleep")),
        availability_topic: Some(mqtt.availability_topic()),
        availability: None,
        availability_mode: None,
        json_attributes_topic: None,
        device: mqtt.device(),
        icon: Some("mdi:power-sleep".to_string()),
        device_class: None,
        unit_of_measurement: None,
        state_class: None,
    };

    let json = to_json(&payload.fields());

    assert_eq!(json["name"], "sleep");
    assert_eq!(json["unique_id"], "dank0i_pc_sleep");
    assert_eq!(
        json["command_topic"],
        "homeassistant/button/dank0i-pc/sleep/action"
    );
    assert_eq!(
        json["availability_topic"],
        "homeassistant/sensor/dank0i-pc/availability"
    );
    assert_eq!(json["icon"], "mdi:power-sleep");

    assert!(json.get("state_topic").is_none());
    assert!(json.get("unit_of_measurement").is_none());
}

#[test]
fn mqtt_test_sensor_with_attributes_payload() {
    let mqtt = test_client("dank0i-pc");
    let payload = HADiscoveryPayload {
        name: "Running Game".to_string(),
        unique_id: format!("{}_runninggames", mqtt.device_id()),
        state_topic: Some(mqtt.sensor_topic("runninggames")),
        command_topic: None,
        availability_topic: Some(mqtt.availability_topic()),
        availability: None,
        availability_mode: None,
        json_attributes_topic: Some(mqtt.sensor_attributes_topic("runninggames")),
        device: mqtt.device(),
        icon: Some("mdi:gamepad-variant".to_string()),
        device_class: None,
        unit_of_measurement: None,
        state_class: None,
    };

    let json = to_json(&payload.fields());

    assert_eq!(
        json["json_attributes_topic"],
        "homeassistant/sensor/dank0i-pc/runninggames/attributes"
    );
    assert_eq!(
        json["state_topic"],
        "homeassistant/sensor/dank0i-pc/runninggames/state"
    );
}

#[test]
fn mqtt_test_device_block_in_discovery() {
    let mqtt = test_client("dank0i-pc");
    let payload = HADiscoveryPayload {
        name: "Test".to_string(),
        unique_id: format!("{}_test", mqtt.device_id()),
        state_topic: Some(mqtt.sensor_topic("test")),
        command_topic: None,
        availability_topic: Some(mqtt.availability_topic()),
        availability: None,
        availability_mode: None,
        json_attributes_topic: None,
        device: mqtt.device(),
        icon: None,
        device_class: None,
        unit_of_measurement: None,
        state_class: None,
    };

    let json = to_json(&payload.fields());
    let device = &json["device"];

    assert_eq!(device["identifiers"], Value::from(vec!["dank0i_pc"]));
    assert_eq!(device["name"], "dank0i-pc");
    assert_eq!(device["manufacturer"], "dank0i");
    assert_eq!(device["sw_version"], VERSION);
    assert!(
        device["model"].as_str().unwrap().starts_with("PC Bridge v"),
        "model should start with 'PC Bridge v'"
    );
}

#[test]
fn mqtt_test_sleep_state_has_no_availability() {
    let mqtt = test_client("dank0i-pc");
    let payload = HADiscoveryPayload {
        name: "Sleep State".to_string(),
        unique_id: format!("{}_sleep_state", mqtt.device_id()),
        state_topic: Some(mqtt.sensor_topic("sleep_state")),
        command_topic: None,
        availability_topic: None,
        availability: None,
        availability_mode: None,
        json_attributes_topic: None,
        device: mqtt.device(),
        icon: Some("mdi:power-sleep".to_string()),
        device_class: None,
        unit_of_measurement: None,
        state_class: None,
    };

    let json = to_json(&payload.fields());

    assert!(
        json.get("availability_topic").is_none(),
        "sleep_state should NOT have availability_topic"
    );
    assert_eq!(
        json["state_topic"],
        "homeassistant/sensor/dank0i-pc/sleep_state/state"
    );
}

#[test]
fn mqtt_test_optional_fields_omitted_when_none() {
    let payload = HADiscoveryPayload {
        name: "Test".to_string(),
        unique_id: "test_id".to_string(),
        state_topic: None,
        command_topic: None,
        availability_topic: None,
        availability: None,
        availability_mode: None,
        json_attributes_topic: None,
        device: HADevice {
            identifiers: vec!["test".to_string()],
            name: "test".to_string(),
            model: "test".to_string(),
            manufacturer: "test".to_string(),
            sw_version: "0.0.0".to_string(),
        },
        icon: None,
        device_class: None,
        unit_of_measurement: None,
        state_class: None,
    };

    let json_str = to_json(&payload.fields()).to_string();
    assert!(
        !json_str.contains("state_topic"),
        "None fields should be skipped"
    );
    assert!(!json_str.contains("command_topic"));
    assert!(!json_str.contains("availability_topic"));
    assert!(!json_str.contains("json_attributes_topic"));
    assert!(!json_str.contains("icon"));
    assert!(!json_str.contains("device_class"));
    assert!(!json_str.contains("unit_of_measurement"));
}

#[test]
fn mqtt_test_sensor_with_device_class() {
    let mqtt = test_client("dank0i-pc");
    let payload = HADiscoveryPayload {
        name: "Last Active".to_string(),
        unique_id: format!("{}_lastactive", mqtt.device_id()),
        state_topic: Some(mqtt.sensor_topic("lastactive")),
        command_topic: None,
        availability_topic: Some(mqtt.availability_topic()),
        availability: None,
        availability_mode: None,
        json_attributes_topic: None,
        device: mqtt.device(),
        icon: Some("mdi:clock-outline".to_string()),
        device_class: Some("timestamp".to_string()),
        unit_of_measurement: None,
        state_class: None,
    };

    let json = to_json(&payload.fields());
    assert_eq!(json["device_class"], "timestamp");
}

#[test]
fn mqtt_test_custom_sensor_discovery_payload() {
    let mqtt = test_client("dank0i-pc");
    let sensor = CustomSensor {
        name: "gpu_power".to_string(),
        sensor_type: config::CustomSensorType::Powershell,
        interval_seconds: 10,
        unit: Some("W".to_string()),
        icon: Some("mdi:lightning-bolt".to_string()),
        script: Some("Get-GpuPower".to_string()),
        process: None,
        file_path: None,
        registry_key: None,
        registry_value: None,
    };

    let topic_name = format!("custom_{}", sensor.name);
    let payload = HADiscoveryPayload {
        name: format!("Custom: {}", sensor.name),
        unique_id: format!("{}_{}", mqtt.device_id(), topic_name),
        state_topic: Some(mqtt.sensor_topic(&topic_name)),
        command_topic: None,
        availability_topic: Some(mqtt.availability_topic()),
        availability: None,
        availability_mode: None,
        device: mqtt.device(),
        icon: sensor.icon.clone(),
        device_class: None,
        unit_of_measurement: sensor.unit.clone(),
        state_class: None,
        json_attributes_topic: None,
    };

    let json = to_json(&payload.fields());

    assert_eq!(json["name"], "Custom: gpu_power");
    assert_eq!(json["unique_id"], "dank0i_pc_custom_gpu_power");
    assert_eq!(
        json["state_topic"],
        "homeassistant/sensor/dank0i-pc/custom_gpu_power/state"
    );
    assert_eq!(json["unit_of_measurement"], "W");
    assert_eq!(json["icon"], "mdi:lightning-bolt");
}

#[test]
fn mqtt_test_custom_command_discovery_payload() {
    let mqtt = test_client("dank0i-pc");
    let cmd = CustomCommand {
        name: "reboot_router".to_string(),
        command_type: config::CustomCommandType::Shell,
        icon: Some("mdi:router-wireless".to_string()),
        admin: false,
        script: None,
        path: None,
        args: None,
        command: Some("reboot-router.sh".to_string()),
    };

    let payload = HADiscoveryPayload {
        name: format!("Custom: {}", cmd.name),
        unique_id: format!("{}_custom_{}", mqtt.device_id(), cmd.name),
        state_topic: None,
        command_topic: Some(mqtt.command_topic(&cmd.name)),
        availability_topic: Some(mqtt.availability_topic()),
        availability: None,
        availability_mode: None,
        device: mqtt.device(),
        icon: cmd.icon.clone(),
        device_class: None,
        unit_of_measurement: None,
        state_class: None,
        json_attributes_topic: None,
    };

    let json = to_json(&payload.fields());

    assert_eq!(json["name"], "Custom: reboot_router");
    assert_eq!(json["unique_id"], "dank0i_pc_custom_reboot_router");
    assert_eq!(
        json["command_topic"],
        "homeassistant/button/dank0i-pc/reboot_router/action"
    );
    assert!(json.get("state_topic").is_none());
}

#[test]
fn mqtt_test_notify_service_payload_structure() {
    let mqtt = test_client("dank0i-pc");
    let registration = mqtt.register_notify_service();
    let payload = match registration.body {
        RegistrationBody::Notify(n) => to_json(&n.fields()),
        RegistrationBody::Entity(_) => panic!("the notify service is no entity"),
    };

    assert_eq!(
        payload["command_topic"],
        "pc-bridge/notifications/dank0i-pc"
    );
    assert_eq!(payload["unique_id"], "dank0i_pc_notify");
    assert_eq!(payload["icon"], "mdi:message-badge");
    assert_eq!(payload["qos"], 1);
    assert!(
        !payload["command_topic"]
            .as_str()
            .unwrap()
            .starts_with("homeassistant/"),
        "Notify command_topic should be pc-bridge/notifications/, not homeassistant/"
    );
}

#[test]
fn mqtt_test_subscribe_topics_default_features() {
    let features = FeatureGroups::default();
    let custom_commands: Vec<CustomCommand> = Vec::new();
    let topics = features.build_subscribe_topics("test-pc", &custom_commands);

    assert!(topics.contains(&"homeassistant/button/test-pc/sleep/action".to_string()));
    assert!(topics.contains(&"homeassistant/button/test-pc/Shutdown/action".to_string()));
    assert!(topics.contains(&"homeassistant/button/test-pc/Lock/action".to_string()));
    assert!(topics.contains(&"homeassistant/button/test-pc/Restart/action".to_string()));
    assert!(topics.contains(&"homeassistant/button/test-pc/Hibernate/action".to_string()));

    assert!(
        !topics.contains(&"homeassistant/button/test-pc/media_play_pause/action".to_string())
    );
    assert!(!topics.contains(&"homeassistant/button/test-pc/volume_mute/action".to_string()));

    assert!(!topics.contains(&"pc-bridge/notifications/test-pc".to_string()));
}

#[test]
fn mqtt_test_subscribe_topics_with_audio() {
    let features = FeatureGroups {
        audio_control: true,
        ..FeatureGroups::default()
    };
    let custom_commands: Vec<CustomCommand> = Vec::new();
    let topics = features.build_subscribe_topics("test-pc", &custom_commands);

    assert!(
        topics.contains(&"homeassistant/button/test-pc/media_play_pause/action".to_string())
    );
    assert!(topics.contains(&"homeassistant/button/test-pc/media_next/action".to_string()));
    assert!(topics.contains(&"homeassistant/button/test-pc/media_previous/action".to_string()));
    assert!(topics.contains(&"homeassistant/button/test-pc/media_stop/action".to_string()));
    assert!(topics.contains(&"homeassistant/button/test-pc/volume_set/action".to_string()));
    assert!(topics.contains(&"homeassistant/button/test-pc/volume_mute/action".to_string()));
}

#[test]
fn mqtt_test_subscribe_topics_with_notifications() {
    let features = FeatureGroups {
        notifications: true,
        ..FeatureGroups::default()
    };
    let custom_commands: Vec<CustomCommand> = Vec::new();
    let topics = features.build_subscribe_topics("test-pc", &custom_commands);

    assert!(topics.contains(&"pc-bridge/notifications/test-pc".to_string()));
}

#[test]
fn mqtt_test_subscribe_topics_with_custom_commands() {
    let features = FeatureGroups::default();
    let custom_commands = vec![
        CustomCommand {
            name: "reboot_router".to_string(),
            command_type: config::CustomCommandType::Shell,
            icon: None,
            admin: false,
            script: None,
            path: None,
            args: None,
            command: Some("echo test".to_string()),
        },
        CustomCommand {
            name: "backup_db".to_string(),
            command_type: config::CustomCommandType::Shell,
            icon: None,
            admin: false,
            script: None,
            path: None,
            args: None,
            command: Some("echo backup".to_string()),
        },
    ];

    let topics = features.build_subscribe_topics("test-pc", &custom_commands);

    assert!(topics.contains(&"homeassistant/button/test-pc/reboot_router/action".to_string()));
    assert!(topics.contains(&"homeassistant/button/test-pc/backup_db/action".to_string()));
}

#[test]
fn mqtt_test_subscribe_topics_all_features_enabled() {
    let features = FeatureGroups {
        game_detection: true,
        idle_tracking: true,
        power_events: true,
        notifications: true,
        system_sensors: true,
        audio_control: true,
        steam_updates: true,
        discord: true,
        show_tray_icon: true,
    };
    let custom_commands: Vec<CustomCommand> = Vec::new();
    let topics = features.build_subscribe_topics("test-pc", &custom_commands);

    assert!(
        topics.len() >= 17,
        "Expected at least 17 topics with all features, got {}",
        topics.len()
    );
}

#[test]
fn mqtt_test_sensor_config_topic_format() {
    let topic = config_topic_of("sensor", "dank0i-pc", "cpu_usage");
    assert_eq!(topic, "homeassistant/sensor/dank0i-pc/cpu_usage/config");
}

#[test]
fn mqtt_test_button_config_topic_format() {
    let topic = config_topic_of("button", "dank0i-pc", "sleep");
    assert_eq!(topic, "homeassistant/button/dank0i-pc/sleep/config");
}

#[test]
fn mqtt_test_notify_config_topic_format() {
    let topic = notify_config_topic_of("dank0i-pc");
    assert_eq!(topic, "homeassistant/notify/dank0i-pc/config");
}

#[test]
fn test_unregister_entity_topic_format() {
    let entity_type = "sensor";
    let device_name = "dank0i-pc";
    let name = "cpu_usage";
    let topic = unregister_entity(device_name, entity_type, name).topic;
    assert_eq!(topic, "homeassistant/sensor/dank0i-pc/cpu_usage/config");
}

#[test]
fn mqtt_test_discovery_payload_roundtrip_is_valid_json() {
    let mqtt = test_client("dank0i-pc");
    let payload = HADiscoveryPayload {
        name: "Battery Level".to_string(),
        unique_id: format!("{}_battery_level", mqtt.device_id()),
        state_topic: Some(mqtt.sensor_topic("battery_level")),
        command_topic: None,
        availability_topic: Some(mqtt.availability_topic()),
        availability: None,
        availability_mode: None,
        json_attributes_topic: None,
        device: mqtt.device(),
        icon: Some("mdi:battery".to_string()),
        device_class: Some("battery".to_string()),
        unit_of_measurement: Some("%".to_string()),
        state_class: None,
    };

    let json_str = to_json(&payload.fields()).to_string();
    let parsed: serde_json::Value = serde_json::from_str(&json_str).unwrap();
    assert!(parsed.is_object());
    assert!(parsed.as_object().unwrap().len() >= 5);
}

#[test]
fn mqtt_test_lwt_topic_and_payload() {
    let topic = MqttClient::availability_topic_static("dank0i-pc");
    assert_eq!(topic, "homeassistant/sensor/dank0i-pc/availability");

    let payload = availability_payload(false);
    assert_eq!(payload, "offline");
}

#[test]
fn mqtt_test_availability_content_online() {
    let payload = availability_payload(true);
    assert_eq!(payload, "online");
    assert_eq!(payload.len(), 6);
}

#[test]
fn mqtt_test_availability_content_offline() {
    let payload = availability_payload(false);
    assert_eq!(payload, "offline");
    assert_eq!(payload.len(), 7);
}

#[test]
fn mqtt_test_sleep_state_content_awake() {
    let value = "awake";
    let mqtt = test_client("dank0i-pc");
    let topic = mqtt.sensor_topic("sleep_state");
    assert_eq!(topic, "homeassistant/sensor/dank0i-pc/sleep_state/state");
    assert_eq!(value, "awake");
}

#[test]
fn mqtt_test_sleep_state_content_sleeping() {
    let value = "sleeping";
    let mqtt = test_client("dank0i-pc");
    let topic = mqtt.sensor_topic("sleep_state");
    assert_eq!(topic, "homeassistant/sensor/dank0i-pc/sleep_state/state");
    assert_eq!(value, "sleeping");
}

#[test]
fn mqtt_test_screensaver_content_values() {
    let active = true;
    let state_str = if active { "on" } else { "off" };
    assert_eq!(state_str, "on");

    let inactive = false;
    let state_str = if inactive { "on" } else { "off" };
    assert_eq!(state_str, "off");
}

#[test]
fn mqtt_test_screensaver_topic() {
    let mqtt = test_client("dank0i-pc");
    let topic = mqtt.sensor_topic("screensaver");
    assert_eq!(topic, "homeassistant/sensor/dank0i-pc/screensaver/state");
}

#[test]
fn mqtt_test_cpu_usage_format() {
    let cpu: f64 = 45.372;
    let cpu_str = format!("{cpu:.1}");
    assert_eq!(cpu_str, "45.4"); // rounded to 1 decimal

    let cpu_zero: f64 = 0.0;
    assert_eq!(format!("{cpu_zero:.1}"), "0.0");

    let cpu_full: f64 = 100.0;
    assert_eq!(format!("{cpu_full:.1}"), "100.0");
}

#[test]
fn mqtt_test_memory_usage_format() {
    let mem: f64 = 67.89;
    let mem_str = format!("{mem:.1}");
    assert_eq!(mem_str, "67.9");
}

#[test]
fn mqtt_test_battery_level_format() {
    let percent: u8 = 85;
    let level_str = percent.to_string();
    assert_eq!(level_str, "85");
}

#[test]
fn mqtt_test_battery_charging_format() {
    let charging = true;
    let charging_str = if charging { "true" } else { "false" };
    assert_eq!(charging_str, "true");

    let not_charging = false;
    let charging_str = if not_charging { "true" } else { "false" };
    assert_eq!(charging_str, "false");
}

#[test]
fn mqtt_test_agent_memory_format() {
    let memory_mb: f64 = 12.345;
    let value = format!("{memory_mb:.1}");
    assert_eq!(value, "12.3");
}

#[test]
fn mqtt_test_custom_sensor_topic_prefix() {
    let sensor_name = "gpu_temp";
    let topic_name = format!("custom_{sensor_name}");
    assert_eq!(topic_name, "custom_gpu_temp");

    let mqtt = test_client("dank0i-pc");
    let topic = mqtt.sensor_topic(&topic_name);
    assert_eq!(
        topic,
        "homeassistant/sensor/dank0i-pc/custom_gpu_temp/state"
    );
}

#[test]
fn mqtt_test_display_state_content() {
    let value = "on";
    let mqtt = test_client("dank0i-pc");
    let topic = mqtt.sensor_topic("display");
    assert_eq!(topic, "homeassistant/sensor/dank0i-pc/display/state");
    assert_eq!(value, "on");
}

#[test]
fn mqtt_test_game_sensor_content_and_topic() {
    let mqtt = test_client("dank0i-pc");
    let state_topic = mqtt.sensor_topic("runninggames");
    let attrs_topic = mqtt.sensor_attributes_topic("runninggames");

    assert_eq!(
        state_topic,
        "homeassistant/sensor/dank0i-pc/runninggames/state"
    );
    assert_eq!(
        attrs_topic,
        "homeassistant/sensor/dank0i-pc/runninggames/attributes"
    );

    let no_game_payload = "none";
    let no_game_attrs = object(vec![("display_name", Value::from("None"))]);
    assert_eq!(no_game_payload, "none");
    assert_eq!(
        serde_json::to_string(&no_game_attrs).unwrap(),
        r#"{"display_name":"None"}"#
    );

    let game_payload = "battlefield_6";
    let game_attrs = object(vec![("display_name", Value::from("Battlefield 2042"))]);
    assert_eq!(game_payload, "battlefield_6");
    assert_eq!(
        serde_json::to_string(&game_attrs).unwrap(),
        r#"{"display_name":"Battlefield 2042"}"#
    );
}

#[test]
fn mqtt_test_steam_updating_content_and_topic() {
    let mqtt = test_client("dank0i-pc");
    let state_topic = mqtt.sensor_topic("steam_updating");
    let attrs_topic = mqtt.sensor_attributes_topic("steam_updating");

    assert_eq!(
        state_topic,
        "homeassistant/sensor/dank0i-pc/steam_updating/state"
    );
    assert_eq!(
        attrs_topic,
        "homeassistant/sensor/dank0i-pc/steam_updating/attributes"
    );

    let idle_payload = "off";
    let idle_attrs = object(vec![
        ("updating_games", Value::from(Vec::<String>::new())),
        ("count", Value::from(0)),
    ]);
    assert_eq!(idle_payload, "off");
    assert_eq!(idle_attrs["count"], 0);
    assert!(idle_attrs["updating_games"].as_array().unwrap().is_empty());

    let updating_payload = "on";
    let updating_attrs = object(vec![
        ("updating_games", Value::from(vec!["Counter-Strike 2"])),
        ("count", Value::from(1)),
    ]);
    assert_eq!(updating_payload, "on");
    assert_eq!(updating_attrs["count"], 1);
    assert_eq!(updating_attrs["updating_games"][0], "Counter-Strike 2");
}

#[test]
fn mqtt_test_sensor_attributes_serializes_to_bytes() {
    let attrs = object(vec![("display_name", Value::from("HELLDIVERS 2"))]);

    let vec_bytes = serde_json::to_vec(&attrs).unwrap();
    let string_bytes = serde_json::to_string(&attrs).unwrap().into_bytes();

    assert_eq!(vec_bytes, string_bytes);
    assert_eq!(
        String::from_utf8(vec_bytes).unwrap(),
        r#"{"display_name":"HELLDIVERS 2"}"#
    );
}

#[test]
fn mqtt_test_parse_broker_url_tcp() {
    let (host, port, _tls) = MqttClient::parse_broker_url("tcp://localhost:1883");
    assert_eq!(host, "localhost");
    assert_eq!(port, 1883);
}

#[test]
fn mqtt_test_parse_broker_url_ssl() {
    let (host, port, _tls) = MqttClient::parse_broker_url("ssl://mqtt.example.com:8883");
    assert_eq!(host, "mqtt.example.com");
    assert_eq!(port, 8883);
}

#[test]
fn mqtt_test_parse_broker_url_ws() {
    let (host, port, _tls) = MqttClient::parse_broker_url("ws://192.168.1.100:8083");
    assert_eq!(host, "192.168.1.100");
    assert_eq!(port, 8083);
}

#[test]
fn mqtt_test_parse_broker_url_wss() {
    let (host, port, _tls) = MqttClient::parse_broker_url("wss://mqtt.example.com:8084");
    assert_eq!(host, "mqtt.example.com");
    assert_eq!(port, 8084);
}

#[test]
fn mqtt_test_parse_broker_url_default_port() {
    let (host, port, _tls) = MqttClient::parse_broker_url("tcp://localhost");
    assert_eq!(host, "localhost");
    assert_eq!(port, 1883);
}

#[test]
fn mqtt_test_parse_broker_url_ipv4() {
    let (host, port, _tls) = MqttClient::parse_broker_url("tcp://192.168.1.1:1883");
    assert_eq!(host, "192.168.1.1");
    assert_eq!(port, 1883);
}

#[test]
fn mqtt_test_extract_command_name_button() {
    let topic = "homeassistant/button/dank0i-pc/sleep/action";
    let cmd = MqttClient::extract_command_name(topic, "dank0i-pc");
    assert_eq!(cmd, Some("sleep".to_string()));
}

#[test]
fn mqtt_test_extract_command_name_shutdown() {
    let topic = "homeassistant/button/dank0i-pc/shutdown/action";
    let cmd = MqttClient::extract_command_name(topic, "dank0i-pc");
    assert_eq!(cmd, Some("shutdown".to_string()));
}

#[test]
fn mqtt_test_extract_command_name_nested() {
    let topic = "homeassistant/button/my-pc/launch_game/action";
    let cmd = MqttClient::extract_command_name(topic, "my-pc");
    assert_eq!(cmd, Some("launch_game".to_string()));
}

#[test]
fn mqtt_test_extract_command_name_notification() {
    let topic = "pc-bridge/notifications/dank0i-pc";
    let cmd = MqttClient::extract_command_name(topic, "dank0i-pc");
    assert_eq!(cmd, Some("notification".to_string()));
}

#[test]
fn mqtt_test_extract_command_name_wrong_device() {
    let topic = "homeassistant/button/other-pc/sleep/action";
    let cmd = MqttClient::extract_command_name(topic, "dank0i-pc");
    assert_eq!(cmd, None);
}

#[test]
fn mqtt_test_extract_command_name_wrong_format() {
    let topic = "homeassistant/sensor/dank0i-pc/state";
    let cmd = MqttClient::extract_command_name(topic, "dank0i-pc");
    assert_eq!(cmd, None);
}

#[test]
fn mqtt_test_availability_topic_static() {
    let topic = MqttClient::availability_topic_static("test-pc");
    assert_eq!(topic, "homeassistant/sensor/test-pc/availability");
}

#[test]
fn mqtt_test_command_struct() {
    let cmd = Command {
        name: "sleep".to_string(),
        payload: "".to_string(),
    };
    assert_eq!(cmd.name, "sleep");
    assert!(cmd.payload.is_empty());
}

#[test]
fn mqtt_test_command_with_payload() {
    let cmd = Command {
        name: "notification".to_string(),
        payload: r#"{"title":"Test","message":"Hello"}"#.to_string(),
    };
    assert_eq!(cmd.name, "notification");
    assert!(cmd.payload.contains("Test"));
}
