//! Decode and re-encode tests for the device-to-hub grammar.

use owotrack::server::{ids, parse_slice, to_bytes, PacketType, RotationDataType};
use owotrack::types::{
    BatteryData, CalibrationInfo, ImuInfo, MagnetometerAccuracyData, PacketID, PingId, Quaternion,
    RawCalibrationData, ResetReasonData, SensorID, SensorInfoData, TapData, Vector,
};

fn put_u8(buf: &mut Vec<u8>, v: u8) {
    buf.push(v);
}

fn put_i8(buf: &mut Vec<u8>, v: i8) {
    buf.push(v as u8);
}

fn put_u32(buf: &mut Vec<u8>, v: u32) {
    buf.extend_from_slice(&v.to_be_bytes());
}

fn put_i32(buf: &mut Vec<u8>, v: i32) {
    buf.extend_from_slice(&v.to_be_bytes());
}

fn put_u64(buf: &mut Vec<u8>, v: u64) {
    buf.extend_from_slice(&v.to_be_bytes());
}

fn put_f32(buf: &mut Vec<u8>, v: f32) {
    buf.extend_from_slice(&v.to_be_bytes());
}

fn put_f64(buf: &mut Vec<u8>, v: f64) {
    buf.extend_from_slice(&v.to_be_bytes());
}

fn quat(x: f32, y: f32, z: f32, w: f32) -> Quaternion {
    Quaternion { x: x.to_bits(), y: y.to_bits(), z: z.to_bits(), w: w.to_bits() }
}

fn vec3(x: f32, y: f32, z: f32) -> Vector {
    Vector { x: x.to_bits(), y: y.to_bits(), z: z.to_bits() }
}

fn assert_encoded_is_equal(buf: &Vec<u8>, parsed: &PacketType) {
    let encoded = to_bytes(parsed).unwrap();

    assert!(buf.len() > 0, "This test is invalid - the original buffer is blank");

    for i in 0..buf.len() {
        assert_eq!(encoded[i], buf[i]);
    }
}

#[test]
fn example() {
    let mut buf: Vec<u8> = Vec::new();

    put_u32(&mut buf, ids::HEARTBEAT);
    put_u64(&mut buf, 7u64);

    let result = parse_slice(&buf).unwrap();

    assert_eq!(result, PacketType::Heartbeat(7u64));
}

#[test]
fn test_parse_packet_id_and_heartbeat() {
    for i in 0u64..64u64 {
        let mut buf: Vec<u8> = Vec::new();

        put_u32(&mut buf, ids::HEARTBEAT);
        put_u64(&mut buf, i * 7u64);

        let parsed_packet = parse_slice(&buf).unwrap();

        assert_eq!(parsed_packet, PacketType::Heartbeat((i * 7u64) as PacketID));

        let parsed_packet2 = parse_slice(&buf).unwrap();

        assert_eq!(parsed_packet2, PacketType::Heartbeat((i * 7u64) as PacketID));

        assert_encoded_is_equal(&buf, &parsed_packet);
        assert_encoded_is_equal(&buf, &parsed_packet2);
    }
}

#[test]
fn test_parse_rotation() {
    let mut buf: Vec<u8> = Vec::new();

    put_u32(&mut buf, ids::ROTATION);
    put_u64(&mut buf, 64u64);

    put_f32(&mut buf, 5.12f32);
    put_f32(&mut buf, 1.28f32);
    put_f32(&mut buf, 9.185f32);
    put_f32(&mut buf, 10.582f32);

    let parsed_packet = parse_slice(&buf).unwrap();

    assert_eq!(
        parsed_packet,
        PacketType::Rotation(64u64 as PacketID, quat(5.12f32, 1.28f32, 9.185f32, 10.582f32))
    );

    assert_encoded_is_equal(&buf, &parsed_packet);
}

#[test]
fn test_parse_gyroscope() {
    let mut buf: Vec<u8> = Vec::new();

    put_u32(&mut buf, ids::GYROSCOPE);
    put_u64(&mut buf, 64u64);

    put_f32(&mut buf, 5.12f32);
    put_f32(&mut buf, 1.28f32);
    put_f32(&mut buf, 9.185f32);

    let parsed_packet = parse_slice(&buf).unwrap();

    assert_eq!(
        parsed_packet,
        PacketType::Gyroscope(64u64 as PacketID, vec3(5.12f32, 1.28f32, 9.185f32))
    );

    assert_encoded_is_equal(&buf, &parsed_packet);
}

#[test]
fn test_parse_basic_handshake() {
    let mut buf: Vec<u8> = Vec::new();

    put_u32(&mut buf, ids::HANDSHAKE);
    put_u64(&mut buf, 0u64);

    let parsed_packet = parse_slice(&buf).unwrap();

    match &parsed_packet {
        PacketType::Handshake(_, h) => {
            assert_eq!(h.board_type, 0);
            assert_eq!(h.imu_type, 0);
            assert_eq!(h.mcu_type, 0);
            assert_eq!(h.imu_info, ImuInfo(0, 0, 0));
            assert_eq!(h.firmware_build, 0);
            assert_eq!(h.firmware.to_string(), "owoTrack");
            assert_eq!(h.mac_address.to_string(), "00:00:00:00:00:00");
        }

        _ => {
            panic!("Handshake data was not detected as handshake!");
        }
    }

    assert_encoded_is_equal(&buf, &parsed_packet);
}

#[test]
fn test_parse_slime_handshake() {
    let mut buf: Vec<u8> = Vec::new();

    put_u32(&mut buf, ids::HANDSHAKE);
    put_u64(&mut buf, 0u64);

    put_i32(&mut buf, 259i32);
    put_i32(&mut buf, 175i32);
    put_i32(&mut buf, 38i32);

    put_i32(&mut buf, 1i32);
    put_i32(&mut buf, 100i32);
    put_i32(&mut buf, 10000i32);

    put_i32(&mut buf, 999372i32);

    put_u8(&mut buf, 8);
    put_u8(&mut buf, 'H' as u8);
    put_u8(&mut buf, 'e' as u8);
    put_u8(&mut buf, 'l' as u8);
    put_u8(&mut buf, 'l' as u8);
    put_u8(&mut buf, 'o' as u8);
    put_u8(&mut buf, 'd' as u8);
    put_u8(&mut buf, 'e' as u8);
    put_u8(&mut buf, 'r' as u8);

    put_u8(&mut buf, 0x10);
    put_u8(&mut buf, 0x20);
    put_u8(&mut buf, 0x30);
    put_u8(&mut buf, 0xFF);
    put_u8(&mut buf, 0xEE);
    put_u8(&mut buf, 0xDA);

    let parsed_packet = parse_slice(&buf).unwrap();

    match &parsed_packet {
        PacketType::Handshake(_, h) => {
            assert_eq!(h.board_type, 259i32);
            assert_eq!(h.imu_type, 175i32);
            assert_eq!(h.mcu_type, 38i32);
            assert_eq!(h.imu_info, ImuInfo(1, 100, 10000));
            assert_eq!(h.firmware_build, 999372i32);
            assert_eq!(h.firmware.to_string(), "Helloder");
            assert_eq!(h.mac_address.to_string(), "10:20:30:FF:EE:DA");
        }

        _ => {
            panic!("Handshake data was not detected as handshake!");
        }
    }

    assert_encoded_is_equal(&buf, &parsed_packet);
}

#[test]
fn test_parse_accelerometer() {
    let mut buf: Vec<u8> = Vec::new();

    put_u32(&mut buf, ids::ACCELEROMETER);
    put_u64(&mut buf, 64u64);

    put_f32(&mut buf, 5824.12f32);
    put_f32(&mut buf, 57578.32f32);
    put_f32(&mut buf, 1578925.85f32);

    let parsed_packet = parse_slice(&buf).unwrap();

    assert_eq!(
        parsed_packet,
        PacketType::Accelerometer(64u64 as PacketID, vec3(5824.12f32, 57578.32f32, 1578925.85f32))
    );

    assert_encoded_is_equal(&buf, &parsed_packet);
}

#[test]
fn test_parse_magnetometer() {
    let mut buf: Vec<u8> = Vec::new();

    put_u32(&mut buf, ids::MAGNETOMETER);
    put_u64(&mut buf, 64u64);

    put_f32(&mut buf, 5824.12f32);
    put_f32(&mut buf, 57578.32f32);
    put_f32(&mut buf, 1578925.85f32);

    let parsed_packet = parse_slice(&buf).unwrap();

    assert_eq!(
        parsed_packet,
        PacketType::Magnetometer(64u64 as PacketID, vec3(5824.12f32, 57578.32f32, 1578925.85f32))
    );

    assert_encoded_is_equal(&buf, &parsed_packet);
}

#[test]
fn test_parse_buf_calibration() {
    let mut buf: Vec<u8> = Vec::new();

    put_u32(&mut buf, ids::RAW_CALIBRATION_DATA);
    put_u64(&mut buf, 64u64);

    put_i32(&mut buf, 10i32);
    put_i32(&mut buf, 100i32);
    put_i32(&mut buf, 500i32);
    put_i32(&mut buf, 600i32);
    put_i32(&mut buf, 700i32);
    put_i32(&mut buf, 800i32);

    let parsed_packet = parse_slice(&buf).unwrap();

    assert_eq!(
        parsed_packet,
        PacketType::RawCalibration(
            64u64 as PacketID,
            RawCalibrationData(10i32, 100i32, 500i32, 600i32, 700i32, 800i32)
        )
    );

    assert_encoded_is_equal(&buf, &parsed_packet);
}

#[test]
fn test_parse_gyro_calibration() {
    let mut buf: Vec<u8> = Vec::new();

    put_u32(&mut buf, ids::GYRO_CALIBRATION_DATA);
    put_u64(&mut buf, 64u64);

    put_f32(&mut buf, 0.10f32);
    put_f32(&mut buf, 0.100f32);
    put_f32(&mut buf, 0.500f32);

    let parsed_packet = parse_slice(&buf).unwrap();

    assert_eq!(
        parsed_packet,
        PacketType::GyroCalibration(
            64u64 as PacketID,
            owotrack::types::GyroCalibrationData(
                0.1f32.to_bits(),
                0.1f32.to_bits(),
                0.5f32.to_bits()
            )
        )
    );

    assert_encoded_is_equal(&buf, &parsed_packet);
}

#[test]
fn test_parse_buf_magnetometer() {
    let mut buf: Vec<u8> = Vec::new();

    put_u32(&mut buf, ids::RAW_MAGNETOMETER);
    put_u64(&mut buf, 64u64);

    put_f32(&mut buf, 0.10f32);
    put_f32(&mut buf, 0.100f32);
    put_f32(&mut buf, 0.500f32);

    let parsed_packet = parse_slice(&buf).unwrap();

    assert_eq!(
        parsed_packet,
        PacketType::RawMagnetometer(64u64 as PacketID, vec3(0.1f32, 0.1f32, 0.5f32))
    );

    assert_encoded_is_equal(&buf, &parsed_packet);
}

#[test]
fn test_parse_ping() {
    let mut buf: Vec<u8> = Vec::new();

    put_u32(&mut buf, ids::PING);
    put_u64(&mut buf, 64u64);

    put_i32(&mut buf, 90000i32);

    let parsed_packet = parse_slice(&buf).unwrap();

    assert_eq!(parsed_packet, PacketType::Ping(64u64 as PacketID, 90000i32 as PingId));

    assert_encoded_is_equal(&buf, &parsed_packet);
}

#[test]
fn test_parse_serial() {
    let mut buf: Vec<u8> = Vec::new();

    put_u32(&mut buf, ids::SERIAL);
    put_u64(&mut buf, 64u64);

    put_u8(&mut buf, 10);
    put_u8(&mut buf, 'A' as u8);
    put_u8(&mut buf, 'A' as u8);
    put_u8(&mut buf, 'A' as u8);
    put_u8(&mut buf, 'A' as u8);
    put_u8(&mut buf, 'A' as u8);
    put_u8(&mut buf, 'A' as u8);
    put_u8(&mut buf, 'A' as u8);
    put_u8(&mut buf, 'A' as u8);
    put_u8(&mut buf, 'A' as u8);
    put_u8(&mut buf, 'A' as u8);

    let parsed_packet = parse_slice(&buf).unwrap();

    match &parsed_packet {
        PacketType::Serial(_, data) => {
            let s = &data.0;
            assert_eq!(s.to_string(), "AAAAAAAAAA");
        }

        _ => panic!("Serial was not parsed as serial!"),
    }

    assert_encoded_is_equal(&buf, &parsed_packet);
}

#[test]
fn test_parse_battery() {
    let mut buf: Vec<u8> = Vec::new();

    put_u32(&mut buf, ids::BATTERY);
    put_u64(&mut buf, 64u64);

    put_f32(&mut buf, 99.99f32);

    let parsed_packet = parse_slice(&buf).unwrap();

    assert_eq!(
        parsed_packet,
        PacketType::Battery(64u64 as PacketID, BatteryData(99.99f32.to_bits()))
    );

    assert_encoded_is_equal(&buf, &parsed_packet);
}

#[test]
fn test_parse_tap() {
    let mut buf: Vec<u8> = Vec::new();

    put_u32(&mut buf, ids::TAP);
    put_u64(&mut buf, 64u64);

    put_i8(&mut buf, 3);
    put_u8(&mut buf, 10);

    let parsed_packet = parse_slice(&buf).unwrap();

    assert_eq!(parsed_packet, PacketType::Tap(64u64 as PacketID, 3 as SensorID, TapData(10)));

    assert_encoded_is_equal(&buf, &parsed_packet);
}

#[test]
fn test_parse_reset_reason() {
    let mut buf: Vec<u8> = Vec::new();

    put_u32(&mut buf, ids::RESET_REASON);
    put_u64(&mut buf, 64u64);

    put_i8(&mut buf, -32i8);

    let parsed_packet = parse_slice(&buf).unwrap();

    assert_eq!(parsed_packet, PacketType::ResetReason(64u64 as PacketID, ResetReasonData(-32i8)));

    assert_encoded_is_equal(&buf, &parsed_packet);
}

#[test]
fn test_parse_sensor_info() {
    let mut buf: Vec<u8> = Vec::new();

    put_u32(&mut buf, ids::SENSOR_INFO);
    put_u64(&mut buf, 64u64);

    put_i8(&mut buf, 4i8);

    put_i8(&mut buf, -32i8);

    let parsed_packet = parse_slice(&buf).unwrap();

    assert_eq!(
        parsed_packet,
        PacketType::SensorInfo(64u64 as PacketID, 4i8 as SensorID, SensorInfoData { status: -32i8 })
    );

    assert_encoded_is_equal(&buf, &parsed_packet);
}

#[test]
fn test_parse_rotation2() {
    let mut buf: Vec<u8> = Vec::new();

    put_u32(&mut buf, ids::ROTATION_2);
    put_u64(&mut buf, 64u64);

    put_f32(&mut buf, 10.20f32);
    put_f32(&mut buf, 59.57832f32);
    put_f32(&mut buf, 3.141592653f32);
    put_f32(&mut buf, 0.001f32);

    let parsed_packet = parse_slice(&buf).unwrap();

    assert_eq!(
        parsed_packet,
        PacketType::Rotation2(64u64 as PacketID, quat(10.20f32, 59.57832f32, 3.141592653f32, 0.001f32))
    );

    assert_encoded_is_equal(&buf, &parsed_packet);
}

#[test]
fn test_parse_rotation_normal() {
    let mut buf: Vec<u8> = Vec::new();

    put_u32(&mut buf, ids::ROTATION_DATA);
    put_u64(&mut buf, 64u64);

    put_u8(&mut buf, 3u8); // sensor id

    put_u8(&mut buf, 1u8); // data type

    put_f32(&mut buf, 10.20f32);
    put_f32(&mut buf, 59.57832f32);
    put_f32(&mut buf, 3.141592653f32);
    put_f32(&mut buf, 0.001f32);

    put_u8(&mut buf, 90u8); // calibration info

    let parsed_packet = parse_slice(&buf).unwrap();

    assert_eq!(
        parsed_packet,
        PacketType::RotationData(
            64u64 as PacketID,
            3i8 as SensorID,
            RotationDataType::Normal(
                quat(10.20f32, 59.57832f32, 3.141592653f32, 0.001f32),
                CalibrationInfo(90i8)
            )
        )
    );

    assert_encoded_is_equal(&buf, &parsed_packet);
}

#[test]
fn test_parse_rotation_correction() {
    let mut buf: Vec<u8> = Vec::new();

    put_u32(&mut buf, ids::ROTATION_DATA);
    put_u64(&mut buf, 64u64);

    put_u8(&mut buf, 3u8); // sensor id

    put_u8(&mut buf, 2u8); // data type

    put_f32(&mut buf, 10.20f32);
    put_f32(&mut buf, 59.57832f32);
    put_f32(&mut buf, 3.141592653f32);
    put_f32(&mut buf, 0.001f32);

    put_u8(&mut buf, 90u8); // calibration info

    let parsed_packet = parse_slice(&buf).unwrap();

    assert_eq!(
        parsed_packet,
        PacketType::RotationData(
            64u64 as PacketID,
            3i8 as SensorID,
            RotationDataType::Correction(
                quat(10.20f32, 59.57832f32, 3.141592653f32, 0.001f32),
                CalibrationInfo(90i8)
            )
        )
    );

    assert_encoded_is_equal(&buf, &parsed_packet);
}

#[test]
fn test_parse_mag_acc() {
    let mut buf: Vec<u8> = Vec::new();

    put_u32(&mut buf, ids::MAGNETOMETER_ACCURACY);
    put_u64(&mut buf, 64u64);

    put_i8(&mut buf, 58i8);
    put_f32(&mut buf, -500.5f32);

    let parsed_packet = parse_slice(&buf).unwrap();

    assert_eq!(
        parsed_packet,
        PacketType::MagnetometerAccuracy(
            64u64 as PacketID,
            58i8 as SensorID,
            MagnetometerAccuracyData((-500.5f32).to_bits())
        )
    );

    assert_encoded_is_equal(&buf, &parsed_packet);
}

#[test]
fn test_parse_malformed_packet() {
    let mut buf: Vec<u8> = Vec::new();

    put_f64(&mut buf, 158.8f64);
    put_f64(&mut buf, 158.8f64);
    put_f64(&mut buf, 158.8f64);

    let parsed_packet = parse_slice(&buf);

    assert_eq!(parsed_packet, None);
}

#[test]
fn test_parse_rotation_malformed() {
    let mut buf: Vec<u8> = Vec::new();

    put_u32(&mut buf, ids::ROTATION_DATA);
    put_u64(&mut buf, 64u64);

    put_i8(&mut buf, -1i8); // sensor id

    put_u8(&mut buf, 90u8); // data type

    put_f32(&mut buf, 10.20f32);
    put_f32(&mut buf, 59.57832f32);
    put_f32(&mut buf, 3.141592653f32);
    put_f32(&mut buf, 0.001f32);

    put_u8(&mut buf, 90u8); // calibration info

    let parsed_packet = parse_slice(&buf);

    assert_eq!(parsed_packet, None);
}

#[test]
fn test_truncated_payloads_rejected() {
    // Tag promises a quaternion but the buffer is short.
    let mut buf: Vec<u8> = Vec::new();
    put_u32(&mut buf, ids::ROTATION);
    put_u64(&mut buf, 1u64);
    put_f32(&mut buf, 1.0f32);
    assert_eq!(parse_slice(&buf), None);

    // Shorter than the 12-byte header.
    let mut buf2: Vec<u8> = Vec::new();
    put_u32(&mut buf2, ids::HEARTBEAT);
    put_u8(&mut buf2, 0);
    assert_eq!(parse_slice(&buf2), None);

    // Unknown tag.
    let mut buf3: Vec<u8> = Vec::new();
    put_u32(&mut buf3, 999);
    put_u64(&mut buf3, 1u64);
    assert_eq!(parse_slice(&buf3), None);
}

#[test]
fn test_serial_length_must_fit() {
    // The length byte promises more bytes than remain.
    let mut buf: Vec<u8> = Vec::new();
    put_u32(&mut buf, ids::SERIAL);
    put_u64(&mut buf, 2u64);
    put_u8(&mut buf, 4);
    put_u8(&mut buf, 'a' as u8);
    assert_eq!(parse_slice(&buf), None);
}

#[test]
fn test_serial_roundtrip_boundary() {
    // The longest string the one-byte length prefix can carry.
    let data = vec![b'x'; 255];
    let sl = owotrack::types::StringWithLength::new(data).unwrap();
    let pkt = PacketType::Serial(9, owotrack::types::SerialData(sl));
    let bytes = to_bytes(&pkt).unwrap();
    assert_eq!(bytes.len(), 12 + 1 + 255);
    let back = parse_slice(&bytes).unwrap();
    assert_eq!(back, pkt);
    assert_eq!(to_bytes(&back).unwrap(), bytes);
}

#[test]
fn test_partial_handshake_defaults() {
    // Only the three type codes are present; everything later takes its
    // default.
    let mut buf: Vec<u8> = Vec::new();
    put_u32(&mut buf, ids::HANDSHAKE);
    put_u64(&mut buf, 5u64);
    put_i32(&mut buf, 11i32);
    put_i32(&mut buf, 22i32);
    put_i32(&mut buf, 33i32);

    match parse_slice(&buf).unwrap() {
        PacketType::Handshake(pid, h) => {
            assert_eq!(pid, 5u64);
            assert_eq!(h.board_type, 11);
            assert_eq!(h.imu_type, 22);
            assert_eq!(h.mcu_type, 33);
            assert_eq!(h.imu_info, ImuInfo(0, 0, 0));
            assert_eq!(h.firmware_build, 0);
            assert_eq!(h.firmware.to_string(), "owoTrack");
            assert_eq!(h.mac_address.to_string(), "00:00:00:00:00:00");
        }
        _ => panic!("expected a handshake"),
    }
}

#[test]
fn test_handshake_firmware_length_must_fit() {
    // The firmware length byte promises more bytes than remain: the whole
    // packet fails to decode.
    let mut buf: Vec<u8> = Vec::new();
    put_u32(&mut buf, ids::HANDSHAKE);
    put_u64(&mut buf, 0u64);
    for _ in 0..7 {
        put_i32(&mut buf, 0i32);
    }
    put_u8(&mut buf, 200);
    put_u8(&mut buf, 'x' as u8);
    assert_eq!(parse_slice(&buf), None);
}
