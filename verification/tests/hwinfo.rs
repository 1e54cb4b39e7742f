//! Snapshots of HWiNFO.

use pc_bridge::hwinfo::{
    current_size, for_each_reading, parse_header, read_poll_time, trim_cstr_ref, HwInfoError,
    HEADER_SIZE, MAX_VIEW_SIZE, OFF_NUM_READINGS, OFF_NUM_SENSORS, OFF_POLLTIME,
    OFF_READING_ELEM_SIZE, OFF_READING_SECTION, OFF_REVISION, OFF_SENSOR_ELEM_SIZE,
    OFF_SENSOR_SECTION, OFF_SIGNATURE, OFF_VERSION, RE_LABEL_LEN, RE_LABEL_ORIG, RE_LABEL_USER,
    RE_SENSOR_INDEX, RE_TYPE, RE_UNIT, RE_UNIT_LEN, RE_VALUE, RE_VALUE_AVG, RE_VALUE_MAX,
    RE_VALUE_MIN, SE_ID, SE_NAME_LEN, SE_NAME_ORIG, SE_NAME_USER,
};

/// One reading row in the test buffer.
/// Tuple shape: (sensor_id, sensor_index, label, unit, value, min, max, avg)
type TestReading<'a> = (u32, usize, &'a str, &'a str, f64, f64, f64, f64);

/// Build a minimal HWiNFO-format byte buffer for testing.
fn build_test_buffer(
    version: u32,
    sensors: &[&str],
    readings: &[TestReading],
) -> Vec<u8> {
    // Packed layout: sensor element is dwSensorID(4) + dwSensorInst(4) +
    // szSensorNameOrig[128] + szSensorNameUser[128] = 264 bytes (no padding).
    // Reading element is RE_VALUE_AVG(308) + 8 = 316 bytes (packed; Value
    // sits at offset 284 with no alignment padding for the f64).
    let sensor_elem_size = 264usize;
    let reading_elem_size = 316usize;
    let sensor_section = HEADER_SIZE;
    let reading_section = sensor_section + sensor_elem_size * sensors.len();
    let total = reading_section + reading_elem_size * readings.len();

    let mut buf = vec![0u8; total];

    // Header
    buf[OFF_SIGNATURE..OFF_SIGNATURE + 4].copy_from_slice(&0x5349_5748u32.to_le_bytes());
    buf[OFF_VERSION..OFF_VERSION + 4].copy_from_slice(&version.to_le_bytes());
    buf[OFF_REVISION..OFF_REVISION + 4].copy_from_slice(&1u32.to_le_bytes());
    buf[OFF_POLLTIME..OFF_POLLTIME + 8].copy_from_slice(&123_456_789i64.to_le_bytes());
    buf[OFF_SENSOR_SECTION..OFF_SENSOR_SECTION + 4]
        .copy_from_slice(&(sensor_section as u32).to_le_bytes());
    buf[OFF_SENSOR_ELEM_SIZE..OFF_SENSOR_ELEM_SIZE + 4]
        .copy_from_slice(&(sensor_elem_size as u32).to_le_bytes());
    buf[OFF_NUM_SENSORS..OFF_NUM_SENSORS + 4]
        .copy_from_slice(&(sensors.len() as u32).to_le_bytes());
    buf[OFF_READING_SECTION..OFF_READING_SECTION + 4]
        .copy_from_slice(&(reading_section as u32).to_le_bytes());
    buf[OFF_READING_ELEM_SIZE..OFF_READING_ELEM_SIZE + 4]
        .copy_from_slice(&(reading_elem_size as u32).to_le_bytes());
    buf[OFF_NUM_READINGS..OFF_NUM_READINGS + 4]
        .copy_from_slice(&(readings.len() as u32).to_le_bytes());

    // A name prefixed "user:" goes to the field of the user.
    for (i, name) in sensors.iter().enumerate() {
        let base = sensor_section + i * sensor_elem_size;
        buf[base + SE_ID..base + SE_ID + 4].copy_from_slice(&(i as u32).to_le_bytes());
        let (field, text) = match name.strip_prefix("user:") {
            Some(rest) => (SE_NAME_USER, rest),
            None => (SE_NAME_ORIG, *name),
        };
        let bytes = text.as_bytes();
        let len = bytes.len().min(SE_NAME_LEN - 1);
        buf[base + field..base + field + len].copy_from_slice(&bytes[..len]);
    }

    // Reading elements
    for (i, &(rtype, sidx, label, unit, value, min, max, avg)) in readings.iter().enumerate() {
        let base = reading_section + i * reading_elem_size;
        buf[base + RE_TYPE..base + RE_TYPE + 4].copy_from_slice(&rtype.to_le_bytes());
        buf[base + RE_SENSOR_INDEX..base + RE_SENSOR_INDEX + 4]
            .copy_from_slice(&(sidx as u32).to_le_bytes());

        // Same "user:" convention for reading labels.
        let (lfield, ltext) = match label.strip_prefix("user:") {
            Some(rest) => (RE_LABEL_USER, rest),
            None => (RE_LABEL_ORIG, label),
        };
        let lbytes = ltext.as_bytes();
        let llen = lbytes.len().min(RE_LABEL_LEN - 1);
        buf[base + lfield..base + lfield + llen].copy_from_slice(&lbytes[..llen]);

        let ubytes = unit.as_bytes();
        let ulen = ubytes.len().min(RE_UNIT_LEN - 1);
        buf[base + RE_UNIT..base + RE_UNIT + ulen].copy_from_slice(&ubytes[..ulen]);

        buf[base + RE_VALUE..base + RE_VALUE + 8].copy_from_slice(&value.to_le_bytes());
        buf[base + RE_VALUE_MIN..base + RE_VALUE_MIN + 8].copy_from_slice(&min.to_le_bytes());
        buf[base + RE_VALUE_MAX..base + RE_VALUE_MAX + 8].copy_from_slice(&max.to_le_bytes());
        buf[base + RE_VALUE_AVG..base + RE_VALUE_AVG + 8].copy_from_slice(&avg.to_le_bytes());
    }

    buf
}

/// (sensor, label, unit, value, min, max, avg, reading_type)
type Seen = (String, String, String, f64, f64, f64, f64, u32);

#[test]
fn test_parse_header_extracts_fields() {
    let buf = build_test_buffer(2, &["CPU [#0]: AMD 9800X3D"], &[]);
    let header = parse_header(&buf).expect("header");
    assert_eq!(header.num_sensors, 1);
    assert_eq!(header.num_readings, 0);
    assert_eq!(header.sensor_elem_size, 264);
    assert_eq!(header.reading_elem_size, 316);
}

#[test]
fn test_parse_header_rejects_unknown_version() {
    let buf = build_test_buffer(3, &[], &[]);
    let err = parse_header(&buf).expect_err("should reject");
    assert!(err.message().contains("unsupported header version"));
}

#[test]
fn test_parse_header_rejects_too_small_view() {
    let buf = vec![0u8; 32];
    let err = parse_header(&buf).expect_err("should reject");
    assert!(err.message().contains("view too small"));
}

#[test]
fn test_parse_sensor_and_reading_join() {
    let buf = build_test_buffer(
        2,
        &["CPU [#0]: AMD 9800X3D", "GPU [#0]: NVIDIA GeForce RTX 4090"],
        &[
            (
                1,
                1,
                "GPU Memory Clock",
                "MHz",
                10501.0,
                405.0,
                10501.0,
                9800.0,
            ),
            (2, 0, "CPU (Tctl/Tdie)", "\u{00B0}C", 61.0, 30.0, 90.0, 55.0),
        ],
    );
    let mut seen: Vec<Seen> = Vec::new();
    for r in for_each_reading(&buf).expect("for_each_reading") {
        seen.push((
            r.sensor_name.to_string(),
            r.label.to_string(),
            r.unit.to_string(),
            f64::from_bits(r.value),
            f64::from_bits(r.min),
            f64::from_bits(r.max),
            f64::from_bits(r.avg),
            r.reading_type,
        ));
    }

    assert_eq!(seen.len(), 2, "every reading must be visited");

    assert_eq!(seen[0].0, "GPU [#0]: NVIDIA GeForce RTX 4090");
    assert_eq!(seen[1].0, "CPU [#0]: AMD 9800X3D");
    assert_eq!(seen[0].1, "GPU Memory Clock");
    assert_eq!(seen[1].1, "CPU (Tctl/Tdie)");
    assert_eq!(seen[0].2, "MHz");
    assert_eq!(seen[1].2, "\u{00B0}C");
    assert!((seen[1].3 - 61.0).abs() < f64::EPSILON, "value");
    assert!((seen[1].4 - 30.0).abs() < f64::EPSILON, "min");
    assert!((seen[1].5 - 90.0).abs() < f64::EPSILON, "max");
    assert!((seen[1].6 - 55.0).abs() < f64::EPSILON, "avg");
    assert_eq!(seen[1].7, 2, "reading_type");
}

#[test]
fn test_user_fields_take_precedence_over_orig() {
    let buf = build_test_buffer(
        2,
        &["user:Renamed CPU"],
        &[(1, 0, "user:Renamed Label", "W", 1.0, 0.0, 2.0, 1.0)],
    );
    let mut seen = Vec::new();
    for r in for_each_reading(&buf).expect("for_each_reading") {
        seen.push((r.sensor_name.to_string(), r.label.to_string()));
    }
    assert_eq!(
        seen,
        vec![("Renamed CPU".to_string(), "Renamed Label".to_string())]
    );
}

#[test]
fn test_rejects_absurd_sensor_count_without_allocating() {
    let mut buf = build_test_buffer(2, &["CPU"], &[]);
    buf[OFF_NUM_SENSORS..OFF_NUM_SENSORS + 4].copy_from_slice(&u32::MAX.to_le_bytes());
    let err = for_each_reading(&buf).expect_err("should reject");
    let msg = err.message();
    assert!(
        msg.contains("out of bounds") || msg.contains("overflow"),
        "unexpected error: {msg}"
    );
}

#[test]
fn test_trim_cstr_truncates_at_nul() {
    let mut field = vec![0u8; 32];
    field[..5].copy_from_slice(b"Hello");
    assert_eq!(trim_cstr_ref(&field), "Hello");
}

#[test]
fn test_trim_cstr_handles_no_nul() {
    let field = b"abcdef".to_vec();
    assert_eq!(trim_cstr_ref(&field), "abcdef");
}

#[test]
fn test_trim_cstr_handles_empty() {
    let field = vec![0u8; 16];
    assert_eq!(trim_cstr_ref(&field), "");
}

#[test]
fn test_for_each_reading_rejects_reading_section_out_of_bounds() {
    let mut buf =
        build_test_buffer(2, &["CPU"], &[(1, 0, "Tctl", "°C", 50.0, 0.0, 100.0, 50.0)]);
    buf[OFF_NUM_READINGS..OFF_NUM_READINGS + 4].copy_from_slice(&9999u32.to_le_bytes());
    let err = for_each_reading(&buf).expect_err("should reject");
    let msg = err.message();
    assert!(msg.contains("out of bounds"), "msg was: {}", msg);
}

#[test]
fn test_for_each_reading_rejects_sensor_section_out_of_bounds() {
    let mut buf = build_test_buffer(2, &["CPU"], &[]);
    buf[OFF_NUM_SENSORS..OFF_NUM_SENSORS + 4].copy_from_slice(&9999u32.to_le_bytes());
    let err = for_each_reading(&buf).expect_err("should reject");
    assert!(err.message().contains("out of bounds"));
}

#[test]
fn test_parse_header_rejects_too_small_sensor_elem() {
    let mut buf = build_test_buffer(2, &[], &[]);
    buf[OFF_SENSOR_ELEM_SIZE..OFF_SENSOR_ELEM_SIZE + 4].copy_from_slice(&8u32.to_le_bytes());
    let err = parse_header(&buf).expect_err("should reject");
    assert!(err.message().contains("sensor element too small"));
}

#[test]
fn test_parse_supports_version_1() {
    let buf = build_test_buffer(1, &["CPU"], &[]);
    let header = parse_header(&buf).expect("v1 header");
    assert_eq!(header.num_sensors, 1);
}

#[test]
fn each_malformed_header_has_its_error() {
    assert_eq!(parse_header(&[0; 32]), Err(HwInfoError::ViewTooSmall(32)));
    assert_eq!(
        parse_header(&build_test_buffer(3, &[], &[])),
        Err(HwInfoError::UnsupportedVersion(3))
    );
    let mut buf = build_test_buffer(2, &[], &[]);
    buf[OFF_READING_ELEM_SIZE..OFF_READING_ELEM_SIZE + 4].copy_from_slice(&315u32.to_le_bytes());
    assert_eq!(
        parse_header(&buf),
        Err(HwInfoError::ReadingElementTooSmall(315))
    );
    assert_eq!(
        HwInfoError::ReadingElementTooSmall(315).message(),
        "hwinfo: reading element too small (315 bytes)"
    );
    assert_eq!(
        HwInfoError::ViewTooSmall(32).message(),
        "hwinfo: view too small for header (32 < 44)"
    );
    assert_eq!(
        HwInfoError::SensorSectionOverflow.message(),
        "hwinfo: sensor section size overflow"
    );
    assert_eq!(
        HwInfoError::ReadingSectionOverflow.message(),
        "hwinfo: reading section size overflow"
    );
}

#[test]
fn a_reading_without_a_sensor_has_no_sensor_name() {
    let buf = build_test_buffer(2, &["CPU"], &[(1, 7, "Tctl", "C", 50.0, 0.0, 100.0, 50.0)]);
    let readings = for_each_reading(&buf).unwrap();
    assert_eq!(readings.len(), 1);
    assert_eq!(readings[0].sensor_name, "");
    assert_eq!(readings[0].label, "Tctl");
}

#[test]
fn bytes_that_are_no_utf8_are_replaced() {
    assert_eq!(trim_cstr_ref(&[0xB0, 0x43, 0x00, 0x41]), "\u{FFFD}C");
    assert_eq!(trim_cstr_ref("42 \u{B0}C\0".as_bytes()), "42 \u{B0}C");
}

#[test]
fn the_view_grows_with_the_header() {
    let buf = build_test_buffer(2, &["CPU"], &[(1, 0, "Tctl", "C", 50.0, 0.0, 100.0, 50.0)]);
    let head = &buf[..HEADER_SIZE];
    assert_eq!(current_size(head, 100_000), buf.len());
    assert_eq!(current_size(head, 300), 300);
    assert_eq!(current_size(&buf[..10], 10), 10);
    let mut huge = head.to_vec();
    huge[OFF_NUM_READINGS..OFF_NUM_READINGS + 4].copy_from_slice(&u32::MAX.to_le_bytes());
    assert_eq!(current_size(&huge, usize::MAX), MAX_VIEW_SIZE);
    assert_eq!(current_size(&[0; 44], 100_000), HEADER_SIZE);
}

#[test]
fn the_poll_time_is_read() {
    let buf = build_test_buffer(2, &[], &[]);
    assert_eq!(read_poll_time(&buf), Some(123_456_789));
    let mut negative = buf.clone();
    negative[OFF_POLLTIME..OFF_POLLTIME + 8].copy_from_slice(&(-2i64).to_le_bytes());
    assert_eq!(read_poll_time(&negative), Some(-2));
    assert_eq!(read_poll_time(&buf[..19]), None);
}
