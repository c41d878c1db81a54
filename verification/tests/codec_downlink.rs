//! Decode and re-encode tests for the hub-to-device grammar.

use owotrack::client::{
    ids, parse_slice, to_bytes, ClientHandshake, CommandType, HeartbeatToClient, OPacketType,
    PacketType, VibrateData,
};
use owotrack::types::{CalibrationConfig, DeviceConfig, Matrix3x3, Vector};

fn put_u8(buf: &mut Vec<u8>, v: u8) {
    buf.push(v);
}

fn put_u32(buf: &mut Vec<u8>, v: u32) {
    buf.extend_from_slice(&v.to_be_bytes());
}

fn put_f32(buf: &mut Vec<u8>, v: f32) {
    buf.extend_from_slice(&v.to_be_bytes());
}

fn assert_encoded_is_equal(buf: &Vec<u8>, parsed: &PacketType) {
    let encoded = to_bytes(parsed).unwrap();

    assert!(buf.len() > 0, "This test is invalid - the original buffer is blank");

    for i in 0..buf.len() {
        assert_eq!(encoded[i], buf[i]);
    }
}

#[test]
fn test_parse_handshake() {
    let mut buf: Vec<u8> = Vec::new();
    put_u8(&mut buf, ids::F_HANDSHAKE);
    put_u8(&mut buf, 'H' as u8);
    put_u8(&mut buf, 'e' as u8);
    put_u8(&mut buf, 'y' as u8);
    put_u8(&mut buf, ' ' as u8);
    put_u8(&mut buf, 'O' as u8);
    put_u8(&mut buf, 'V' as u8);
    put_u8(&mut buf, 'R' as u8);
    put_u8(&mut buf, ' ' as u8);
    put_u8(&mut buf, '=' as u8);
    put_u8(&mut buf, 'D' as u8);
    put_u8(&mut buf, ' ' as u8);
    put_u8(&mut buf, '5' as u8);

    let parsed_packet = parse_slice(&buf).unwrap();
    assert_eq!(parsed_packet, PacketType::Handshake(ClientHandshake { version: '5' as u8 }));
    let parsed_packet2 = parse_slice(&buf).unwrap();
    assert_eq!(parsed_packet2, PacketType::Handshake(ClientHandshake { version: '5' as u8 }));
    assert_encoded_is_equal(&buf, &parsed_packet);
    assert_encoded_is_equal(&buf, &parsed_packet2);
}

#[test]
fn test_parse_vibrate() {
    let mut buf: Vec<u8> = Vec::new();
    put_u32(&mut buf, ids::VIBRATE as u32);
    put_f32(&mut buf, 5.912f32);
    put_f32(&mut buf, 0.01f32);
    put_f32(&mut buf, 0.058f32);

    let parsed_packet = parse_slice(&buf).unwrap();
    assert_eq!(
        parsed_packet,
        PacketType::Other(OPacketType::Vibrate(VibrateData {
            duration_seconds: 5.912f32.to_bits(),
            frequency: 0.01f32.to_bits(),
            amplitude: 0.058f32.to_bits()
        }))
    );

    assert_encoded_is_equal(&buf, &parsed_packet);
}

fn roundtrip(pkt: PacketType) {
    let bytes = to_bytes(&pkt).unwrap();
    let back = parse_slice(&bytes).unwrap();
    assert_eq!(back, pkt);
    let again = to_bytes(&back).unwrap();
    assert_eq!(again, bytes);
}

#[test]
fn test_downlink_roundtrips() {
    roundtrip(PacketType::Handshake(ClientHandshake { version: '5' as u8 }));
    roundtrip(PacketType::Other(OPacketType::Heartbeat(HeartbeatToClient { extra: 0 })));
    roundtrip(PacketType::Other(OPacketType::Vibrate(VibrateData {
        duration_seconds: 0.1f32.to_bits(),
        frequency: 1.0f32.to_bits(),
        amplitude: 1.0f32.to_bits(),
    })));
    roundtrip(PacketType::Other(OPacketType::Command(CommandType::Calibrate)));
    roundtrip(PacketType::Other(OPacketType::Command(CommandType::SendConfig)));
    roundtrip(PacketType::Other(OPacketType::Command(CommandType::Blink)));
    roundtrip(PacketType::Other(OPacketType::Ping(-77)));
    roundtrip(PacketType::Other(OPacketType::SensorInfo(-3, true)));
    roundtrip(PacketType::Other(OPacketType::SensorInfo(7, false)));

    let v = Vector { x: 1.5f32.to_bits(), y: (-2.5f32).to_bits(), z: 0.0f32.to_bits() };
    let m = Matrix3x3 {
        a00: 1.0f32.to_bits(),
        a01: 0.0f32.to_bits(),
        a02: 0.0f32.to_bits(),
        a10: 0.0f32.to_bits(),
        a11: 1.0f32.to_bits(),
        a12: 0.0f32.to_bits(),
        a20: 0.0f32.to_bits(),
        a21: 0.0f32.to_bits(),
        a22: 1.0f32.to_bits(),
    };
    roundtrip(PacketType::Other(OPacketType::Config(DeviceConfig {
        calibration: CalibrationConfig {
            accel_B: v,
            accel_Ainv: m,
            mag_B: v,
            mag_Ainv: m,
            gyro_off: v,
        },
        device_id: 42,
        device_mode: -1,
    })));
}

#[test]
fn test_downlink_command_layout() {
    // An enumerated command travels as a 4-byte identifier after the
    // zero pad and the 2-byte sub-tag.
    let bytes = to_bytes(&PacketType::Other(OPacketType::Command(CommandType::Blink))).unwrap();
    assert_eq!(bytes, vec![0u8, 0u8, 0u8, 4u8, 0u8, 0u8, 0u8, 3u8]);
}

#[test]
fn test_downlink_malformed() {
    // Wrong magic in a handshake frame.
    let mut buf: Vec<u8> = Vec::new();
    put_u8(&mut buf, ids::F_HANDSHAKE);
    for _ in 0..12 {
        put_u8(&mut buf, 0);
    }
    assert_eq!(parse_slice(&buf), None);

    // Unknown outer discriminant.
    assert_eq!(parse_slice(&[9u8, 0, 0, 1, 0]), None);

    // Missing zero pad byte.
    assert_eq!(parse_slice(&[0u8, 7, 0, 1, 0]), None);

    // Unknown sub-tag.
    assert_eq!(parse_slice(&[0u8, 0, 0, 99, 0]), None);

    // A command identifier outside the enumeration.
    let mut buf2: Vec<u8> = Vec::new();
    put_u32(&mut buf2, ids::COMMAND as u32);
    put_u32(&mut buf2, 9);
    assert_eq!(parse_slice(&buf2), None);

    // A sensor-state byte that is neither 0 nor 1.
    let mut buf3: Vec<u8> = Vec::new();
    put_u32(&mut buf3, ids::SENSOR_INFO as u32);
    put_u8(&mut buf3, 2);
    put_u8(&mut buf3, 90);
    assert_eq!(parse_slice(&buf3), None);

    // The empty buffer.
    assert_eq!(parse_slice(&[]), None);
}
