//! The state class of sensors.

use pc_bridge::mqtt::payload::derive_state_class;

#[test]
fn derive_state_class_numeric_sensors_get_measurement() {
    assert_eq!(
        derive_state_class(None, Some("%")),
        Some("measurement".to_string()),
    );
    assert_eq!(
        derive_state_class(Some("power"), Some("W")),
        Some("measurement".to_string()),
    );
    assert_eq!(
        derive_state_class(Some("temperature"), Some("°C")),
        Some("measurement".to_string()),
    );
}

#[test]
fn derive_state_class_string_sensors_skip() {
    assert_eq!(derive_state_class(None, None), None);
}

#[test]
fn derive_state_class_timestamps_skip() {
    assert_eq!(derive_state_class(Some("timestamp"), None), None);
}
