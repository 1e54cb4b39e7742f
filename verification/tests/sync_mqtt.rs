//! The packets and the exchange that publish the sleep state.

use pc_bridge::config::{Config, MqttConfig};
use pc_bridge::power::sync_mqtt::{
    build_mqtt_connect, build_mqtt_publish, do_mqtt_exchange, encode_remaining_length, next_step,
    parse_broker_url, sleep_connection, ExchangeAction, ExchangeStep, SyncMqttConfig,
};

#[test]
fn test_encode_remaining_length_small() {
    let mut buf = Vec::new();
    encode_remaining_length(&mut buf, 42);
    assert_eq!(buf, vec![42]);
}

#[test]
fn test_encode_remaining_length_medium() {
    let mut buf = Vec::new();
    encode_remaining_length(&mut buf, 200);
    assert_eq!(buf, vec![0xC8, 0x01]);
}

#[test]
fn test_encode_remaining_length_zero() {
    let mut buf = Vec::new();
    encode_remaining_length(&mut buf, 0);
    assert_eq!(buf, vec![0]);
}

#[test]
fn test_encode_remaining_length_boundary_127() {
    let mut buf = Vec::new();
    encode_remaining_length(&mut buf, 127);
    assert_eq!(buf, vec![127]);
}

#[test]
fn test_encode_remaining_length_boundary_128() {
    let mut buf = Vec::new();
    encode_remaining_length(&mut buf, 128);
    assert_eq!(buf, vec![0x80, 0x01]);
}

#[test]
fn test_build_mqtt_publish_retained() {
    let packet = build_mqtt_publish("test/topic", b"hello", true);
    assert_eq!(packet[0], 0x31);
    assert_eq!(packet[1], 17);
    assert_eq!(&packet[2..4], &[0x00, 0x0A]);
    assert_eq!(&packet[4..14], b"test/topic");
    assert_eq!(&packet[14..19], b"hello");
}

#[test]
fn test_build_mqtt_publish_not_retained() {
    let packet = build_mqtt_publish("t", b"v", false);
    assert_eq!(packet[0], 0x30);
}

#[test]
fn test_build_mqtt_publish_empty_payload() {
    let packet = build_mqtt_publish("topic", b"", true);
    assert_eq!(packet[0], 0x31);
    assert_eq!(packet[1], 7);
}

#[test]
fn test_build_mqtt_connect_with_auth() {
    let packet = build_mqtt_connect("test-client", "user", "pass");
    assert_eq!(packet[0], 0x10);
    assert_eq!(&packet[2..8], b"\x00\x04MQTT");
    assert_eq!(packet[8], 4);
    assert_eq!(packet[9], 0xC2);
}

#[test]
fn test_build_mqtt_connect_no_auth() {
    let packet = build_mqtt_connect("test-client", "", "");
    assert_eq!(packet[9], 0x02);
}

#[test]
fn test_build_mqtt_connect_user_only() {
    let packet = build_mqtt_connect("c", "admin", "");
    assert_eq!(packet[9], 0x82);
}

#[test]
fn test_parse_broker_url() {
    assert_eq!(
        parse_broker_url("tcp://192.168.1.1:1883"),
        ("192.168.1.1".into(), 1883, false)
    );
    assert_eq!(
        parse_broker_url("192.168.1.1:1884"),
        ("192.168.1.1".into(), 1884, false)
    );
    assert_eq!(
        parse_broker_url("ssl://broker:8883"),
        ("broker".into(), 8883, true)
    );
}

#[test]
fn test_parse_broker_url_defaults() {
    assert_eq!(parse_broker_url("myhost"), ("myhost".into(), 1883, false));
    assert_eq!(
        parse_broker_url("ws://broker:9001"),
        ("broker".into(), 9001, false)
    );
    assert_eq!(
        parse_broker_url("wss://broker:9002"),
        ("broker".into(), 9002, true)
    );
}

#[test]
fn test_parse_broker_url_tls_default_ports() {
    assert_eq!(
        parse_broker_url("ssl://mybroker"),
        ("mybroker".into(), 8883, true)
    );
    assert_eq!(
        parse_broker_url("wss://mybroker"),
        ("mybroker".into(), 8883, true)
    );
    assert_eq!(
        parse_broker_url("tcp://mybroker"),
        ("mybroker".into(), 1883, false)
    );
}

/// Runs the exchange against a broker that answers CONNECT with `reply`. Returns
/// what was sent.
fn run_exchange(cfg: &SyncMqttConfig, reply: [u8; 4]) -> Result<Vec<u8>, String> {
    let mut sent = Vec::new();
    let mut step = ExchangeStep::Connect;
    loop {
        match do_mqtt_exchange(cfg, step) {
            ExchangeAction::Send { bytes, .. } => {
                sent.extend(bytes);
                step = next_step(step, reply)?;
            }
            ExchangeAction::Receive => step = next_step(step, reply)?,
            ExchangeAction::Finish => return Ok(sent),
        }
    }
}

fn connection(user: &str, pass: &str, client_id: &str, sleep_topic: &str) -> SyncMqttConfig {
    SyncMqttConfig {
        host: "127.0.0.1".into(),
        port: 1883,
        use_tls: false,
        user: user.into(),
        pass: pass.into(),
        client_id: client_id.into(),
        sleep_topic: sleep_topic.into(),
    }
}

/// Decodes a variable-length remaining length: the value and its size.
fn decode_remaining_length(bytes: &[u8]) -> Option<(usize, usize)> {
    let mut value = 0usize;
    let mut multiplier = 1;
    for (i, &byte) in bytes.iter().enumerate() {
        value += (byte as usize & 0x7F) * multiplier;
        if byte & 0x80 == 0 {
            return Some((value, i + 1));
        }
        multiplier *= 128;
        if i >= 3 {
            return None;
        }
    }
    None
}

/// The publishes among packets: topic, payload and whether it is retained.
fn publishes(mut data: &[u8]) -> Vec<(String, Vec<u8>, bool)> {
    let mut received = Vec::new();
    while data.len() >= 2 {
        let (remaining, len_bytes) = decode_remaining_length(&data[1..]).unwrap();
        let total = 1 + len_bytes + remaining;
        if data[0] >> 4 == 3 {
            let pos = 1 + len_bytes;
            let topic_len = u16::from_be_bytes([data[pos], data[pos + 1]]) as usize;
            let topic = String::from_utf8_lossy(&data[pos + 2..pos + 2 + topic_len]).to_string();
            let payload = data[pos + 2 + topic_len..total].to_vec();
            received.push((topic, payload, data[0] & 1 != 0));
        }
        data = &data[total..];
    }
    received
}

const ACCEPTED: [u8; 4] = [0x20, 0x02, 0x00, 0x00];

#[test]
fn sync_publish_delivers_sleeping_message() {
    let cfg = connection("", "", "test-sleep", "homeassistant/sensor/test-pc/sleep_state/state");
    let sent = run_exchange(&cfg, ACCEPTED).unwrap();
    let received = publishes(&sent);
    assert_eq!(received.len(), 1, "Expected 1 publish, got {received:?}");
    assert_eq!(received[0].0, "homeassistant/sensor/test-pc/sleep_state/state");
    assert_eq!(received[0].1, b"sleeping");
    assert!(received[0].2, "Sleep message must be retained");
    assert_eq!(&sent[sent.len() - 2..], &[0xE0, 0x00]);
}

#[test]
fn sync_publish_with_auth() {
    let cfg = connection("testuser", "testpass", "test-auth", "test/sleep");
    let sent = run_exchange(&cfg, ACCEPTED).unwrap();
    let received = publishes(&sent);
    assert_eq!(received.len(), 1);
    assert_eq!(received[0].1, b"sleeping");
    assert!(sent.windows(8).any(|w| w == b"testpass"));
}

#[test]
fn sync_publish_handles_connack_rejection() {
    let cfg = connection("", "", "test-reject", "test/sleep");
    let err = run_exchange(&cfg, [0x20, 0x02, 0x00, 0x05]).unwrap_err();
    assert!(err.contains("rc=5"));
}

#[test]
fn sync_publish_rejects_malformed_connack_length() {
    let cfg = connection("", "", "test-bad-connack", "test/sleep");
    let err = run_exchange(&cfg, [0x20, 0x04, 0x00, 0x00]).unwrap_err();
    assert!(err.contains("len=4"));
}

#[test]
fn sync_publish_rejects_wrong_packet_type() {
    let cfg = connection("", "", "test-wrong-type", "test/sleep");
    let err = run_exchange(&cfg, [0x90, 0x02, 0x00, 0x00]).unwrap_err();
    assert!(err.contains("type=0x90"));
}

#[test]
fn remaining_lengths_are_read_back() {
    for n in [0usize, 1, 127, 128, 16_383, 16_384, 2_097_151, 2_097_152, 268_435_455] {
        let mut buf = Vec::new();
        encode_remaining_length(&mut buf, n);
        assert_eq!(decode_remaining_length(&buf), Some((n, buf.len())));
    }
}

#[test]
fn the_sleep_connection_has_a_client_of_its_own() {
    let config = Config {
        device_name: "my-pc".to_string(),
        mqtt: MqttConfig {
            broker: "ssl://broker:8884".to_string(),
            user: "u".to_string(),
            pass: "p".to_string(),
            client_id: Some("bridge".to_string()),
        },
        ..Config::default()
    };
    let c = sleep_connection(&config);
    assert_eq!((c.host.as_str(), c.port, c.use_tls), ("broker", 8884, true));
    assert_eq!((c.user.as_str(), c.pass.as_str()), ("u", "p"));
    assert_eq!(c.client_id, "bridge-sleep");
    assert_eq!(c.sleep_topic, "homeassistant/sensor/my-pc/sleep_state/state");
}

#[test]
fn a_connect_packet_holds_the_account() {
    let fields = |mut rest: &[u8]| {
        let mut out = Vec::new();
        while rest.len() >= 2 {
            let n = usize::from(rest[0]) * 256 + usize::from(rest[1]);
            out.push(String::from_utf8(rest[2..2 + n].to_vec()).unwrap());
            rest = &rest[2 + n..];
        }
        assert!(rest.is_empty());
        out
    };
    let packet = build_mqtt_connect("c\u{e9}", "u", "pw");
    assert_eq!(packet[..12], *b"\x10\x16\x00\x04MQTT\x04\xC2\x00\x0A");
    assert_eq!(packet.len(), 2 + 0x16);
    assert_eq!(fields(&packet[12..]), ["c\u{e9}", "u", "pw"]);
    assert_eq!(fields(&build_mqtt_connect("c", "", "pw")[12..]), ["c", "pw"]);
    assert_eq!(build_mqtt_connect("c", "", "pw")[9], 0x42);
    assert_eq!(fields(&build_mqtt_connect("c", "", "")[12..]), ["c"]);
}
