//! The device-to-hub ("uplink") packet grammar.
//!
//! Every uplink packet starts with a 4-byte unsigned big-endian packet-type
//! tag and an 8-byte packet sequence number, followed by a type-specific
//! payload.  `spec_parse` is the normative description of decoding;
//! `parse_slice` and `to_bytes` are the executable decoder and encoder, tied
//! to it by their contracts, and `lemma_roundtrip` states that decoding an
//! encoded packet gives the packet back.

pub mod ids;

use vstd::prelude::*;

use crate::types::{
    BatteryData, CalibrationInfo, ConfigurationData, FirmwareString, GyroCalibrationData,
    HandshakeData, HandshakeView, ImuInfo, MacAddress, MagnetometerAccuracyData, PacketID, PingId,
    Quaternion, RawCalibrationData, ResetReasonData, SensorID, SensorInfoData, SerialData,
    StringWithLength, TapData, Vector, default_firmware_bytes,
};
use crate::wire::{
    be4, be4i, be8, lemma_cast_i8, lemma_val4_be4, lemma_val4i_be4i, lemma_val8_be8, push_i32,
    push_u32, push_u64, read_i32, read_i8, read_u32, read_u64, val4, val4i, val8,
};

verus! {

/// The payload of a rotation-data packet: a quaternion plus calibration
/// info, as a normal sample or a drift correction.
#[derive(Clone, Copy, PartialEq, Eq, Structural, Debug)]
pub enum RotationDataType {
    Normal(Quaternion, CalibrationInfo),
    Correction(Quaternion, CalibrationInfo),
}

/// One decoded uplink packet.
#[derive(Clone, PartialEq, Debug)]
pub enum PacketType {
    Heartbeat(PacketID),
    Rotation(PacketID, Quaternion),
    Gyroscope(PacketID, Vector),
    Handshake(PacketID, HandshakeData),
    Accelerometer(PacketID, Vector),
    Magnetometer(PacketID, Vector),
    RawCalibration(PacketID, RawCalibrationData),
    GyroCalibration(PacketID, GyroCalibrationData),
    Config(PacketID, ConfigurationData),
    RawMagnetometer(PacketID, Vector),
    Ping(PacketID, PingId),
    Serial(PacketID, SerialData),
    Battery(PacketID, BatteryData),
    Tap(PacketID, SensorID, TapData),
    ResetReason(PacketID, ResetReasonData),
    SensorInfo(PacketID, SensorID, SensorInfoData),
    Rotation2(PacketID, Quaternion),
    RotationData(PacketID, SensorID, RotationDataType),
    MagnetometerAccuracy(PacketID, SensorID, MagnetometerAccuracyData),
}

/// The mathematical view of an uplink packet.  It differs from
/// `PacketType` only where a field owns heap data: the handshake and the
/// serial string become their sequence views.
pub enum PacketView {
    Heartbeat(u64),
    Rotation(u64, Quaternion),
    Gyroscope(u64, Vector),
    Handshake(u64, HandshakeView),
    Accelerometer(u64, Vector),
    Magnetometer(u64, Vector),
    RawCalibration(u64, RawCalibrationData),
    GyroCalibration(u64, GyroCalibrationData),
    Config(u64, ConfigurationData),
    RawMagnetometer(u64, Vector),
    Ping(u64, i32),
    Serial(u64, Seq<u8>),
    Battery(u64, BatteryData),
    Tap(u64, i8, TapData),
    ResetReason(u64, ResetReasonData),
    SensorInfo(u64, i8, SensorInfoData),
    Rotation2(u64, Quaternion),
    RotationData(u64, i8, RotationDataType),
    MagnetometerAccuracy(u64, i8, MagnetometerAccuracyData),
}

impl View for PacketType {
    type V = PacketView;

    open spec fn view(&self) -> PacketView {
        match *self {
            PacketType::Heartbeat(pid) => PacketView::Heartbeat(pid),
            PacketType::Rotation(pid, q) => PacketView::Rotation(pid, q),
            PacketType::Gyroscope(pid, v) => PacketView::Gyroscope(pid, v),
            PacketType::Handshake(pid, ref h) => PacketView::Handshake(pid, h@),
            PacketType::Accelerometer(pid, v) => PacketView::Accelerometer(pid, v),
            PacketType::Magnetometer(pid, v) => PacketView::Magnetometer(pid, v),
            PacketType::RawCalibration(pid, c) => PacketView::RawCalibration(pid, c),
            PacketType::GyroCalibration(pid, c) => PacketView::GyroCalibration(pid, c),
            PacketType::Config(pid, c) => PacketView::Config(pid, c),
            PacketType::RawMagnetometer(pid, v) => PacketView::RawMagnetometer(pid, v),
            PacketType::Ping(pid, e) => PacketView::Ping(pid, e),
            PacketType::Serial(pid, ref d) => PacketView::Serial(pid, d@),
            PacketType::Battery(pid, l) => PacketView::Battery(pid, l),
            PacketType::Tap(pid, sid, t) => PacketView::Tap(pid, sid, t),
            PacketType::ResetReason(pid, r) => PacketView::ResetReason(pid, r),
            PacketType::SensorInfo(pid, sid, d) => PacketView::SensorInfo(pid, sid, d),
            PacketType::Rotation2(pid, q) => PacketView::Rotation2(pid, q),
            PacketType::RotationData(pid, sid, t) => PacketView::RotationData(pid, sid, t),
            PacketType::MagnetometerAccuracy(pid, sid, a) => PacketView::MagnetometerAccuracy(
                pid,
                sid,
                a,
            ),
        }
    }
}

impl PacketType {
    /// A packet is well formed when each length-prefixed string it carries
    /// fits its one-byte length prefix.
    pub open spec fn wf(&self) -> bool {
        match *self {
            PacketType::Handshake(_, ref h) => h.wf(),
            PacketType::Serial(_, ref d) => d.wf(),
            _ => true,
        }
    }
}

impl PacketView {
    pub open spec fn wf(&self) -> bool {
        match *self {
            PacketView::Handshake(_, h) => h.wf(),
            PacketView::Serial(_, d) => d.len() <= 255,
            _ => true,
        }
    }
}

/// The quaternion whose four bit patterns sit at index `i`.
pub open spec fn quat_at(s: Seq<u8>, i: int) -> Quaternion {
    Quaternion {
        x: val4(s[i], s[i + 1], s[i + 2], s[i + 3]),
        y: val4(s[i + 4], s[i + 5], s[i + 6], s[i + 7]),
        z: val4(s[i + 8], s[i + 9], s[i + 10], s[i + 11]),
        w: val4(s[i + 12], s[i + 13], s[i + 14], s[i + 15]),
    }
}

/// The vector whose three bit patterns sit at index `i`.
pub open spec fn vec3_at(s: Seq<u8>, i: int) -> Vector {
    Vector {
        x: val4(s[i], s[i + 1], s[i + 2], s[i + 3]),
        y: val4(s[i + 4], s[i + 5], s[i + 6], s[i + 7]),
        z: val4(s[i + 8], s[i + 9], s[i + 10], s[i + 11]),
    }
}

/// The length-prefixed string at index `i`: one length byte, then exactly
/// that many bytes.  `None` when the buffer is too short.
pub open spec fn lenstr_at(s: Seq<u8>, i: int) -> Option<Seq<u8>> {
    if s.len() >= i + 1 && s.len() >= i + 1 + s[i] {
        Some(s.subrange(i + 1, i + 1 + s[i]))
    } else {
        None
    }
}

/// Decoding of a handshake payload with its backward-compatibility rule:
/// after the tag and the sequence number, each field is present only when
/// enough bytes remain for it at its turn, and an absent field takes its
/// fixed default.  The only failure is a firmware length byte that promises
/// more bytes than remain.
pub open spec fn spec_parse_handshake(s: Seq<u8>) -> Option<HandshakeView> {
    let n = s.len() as int;
    let has_board = n - 12 >= 4;
    let board = if has_board {
        val4i(s[12], s[13], s[14], s[15])
    } else {
        0
    };
    let i1 = if has_board {
        16int
    } else {
        12int
    };
    let has_imu = n - i1 >= 4;
    let imu = if has_imu {
        val4i(s[i1], s[i1 + 1], s[i1 + 2], s[i1 + 3])
    } else {
        0
    };
    let i2 = if has_imu {
        i1 + 4
    } else {
        i1
    };
    let has_mcu = n - i2 >= 4;
    let mcu = if has_mcu {
        val4i(s[i2], s[i2 + 1], s[i2 + 2], s[i2 + 3])
    } else {
        0
    };
    let i3 = if has_mcu {
        i2 + 4
    } else {
        i2
    };
    let has_info = n - i3 >= 12;
    let info = if has_info {
        ImuInfo(
            val4i(s[i3], s[i3 + 1], s[i3 + 2], s[i3 + 3]),
            val4i(s[i3 + 4], s[i3 + 5], s[i3 + 6], s[i3 + 7]),
            val4i(s[i3 + 8], s[i3 + 9], s[i3 + 10], s[i3 + 11]),
        )
    } else {
        ImuInfo(0, 0, 0)
    };
    let i4 = if has_info {
        i3 + 12
    } else {
        i3
    };
    let has_build = n - i4 >= 4;
    let build = if has_build {
        val4i(s[i4], s[i4 + 1], s[i4 + 2], s[i4 + 3])
    } else {
        0
    };
    let i5 = if has_build {
        i4 + 4
    } else {
        i4
    };
    let has_fw = n - i5 >= 1;
    if has_fw && n < i5 + 1 + s[i5] {
        None
    } else {
        let fw = if has_fw {
            s.subrange(i5 + 1, i5 + 1 + s[i5])
        } else {
            default_firmware_bytes()
        };
        let i6 = if has_fw {
            i5 + 1 + s[i5]
        } else {
            i5
        };
        let has_mac = n - i6 >= 6;
        let mac = if has_mac {
            MacAddress(s[i6], s[i6 + 1], s[i6 + 2], s[i6 + 3], s[i6 + 4], s[i6 + 5])
        } else {
            MacAddress(0, 0, 0, 0, 0, 0)
        };
        Some(
            HandshakeView {
                board_type: board,
                imu_type: imu,
                mcu_type: mcu,
                imu_info: info,
                firmware_build: build,
                firmware: fw,
                mac_address: mac,
            },
        )
    }
}

/// Decoding of an uplink buffer.  `None` when the buffer is shorter than
/// the 12-byte header, the tag is unrecognized, the payload the tag implies
/// does not fit, or a rotation-data sub-type is invalid.  Bytes past the
/// payload are ignored.
pub open spec fn spec_parse(s: Seq<u8>) -> Option<PacketView> {
    if s.len() < 12 {
        None
    } else {
        let tag = val4(s[0], s[1], s[2], s[3]);
        let pid = val8(s[4], s[5], s[6], s[7], s[8], s[9], s[10], s[11]);
        if tag == ids::HEARTBEAT {
            Some(PacketView::Heartbeat(pid))
        } else if tag == ids::ROTATION {
            if s.len() >= 28 {
                Some(PacketView::Rotation(pid, quat_at(s, 12)))
            } else {
                None
            }
        } else if tag == ids::GYROSCOPE {
            if s.len() >= 24 {
                Some(PacketView::Gyroscope(pid, vec3_at(s, 12)))
            } else {
                None
            }
        } else if tag == ids::HANDSHAKE {
            match spec_parse_handshake(s) {
                Some(h) => Some(PacketView::Handshake(pid, h)),
                None => None,
            }
        } else if tag == ids::ACCELEROMETER {
            if s.len() >= 24 {
                Some(PacketView::Accelerometer(pid, vec3_at(s, 12)))
            } else {
                None
            }
        } else if tag == ids::MAGNETOMETER {
            if s.len() >= 24 {
                Some(PacketView::Magnetometer(pid, vec3_at(s, 12)))
            } else {
                None
            }
        } else if tag == ids::RAW_CALIBRATION_DATA {
            if s.len() >= 36 {
                Some(
                    PacketView::RawCalibration(
                        pid,
                        RawCalibrationData(
                            val4i(s[12], s[13], s[14], s[15]),
                            val4i(s[16], s[17], s[18], s[19]),
                            val4i(s[20], s[21], s[22], s[23]),
                            val4i(s[24], s[25], s[26], s[27]),
                            val4i(s[28], s[29], s[30], s[31]),
                            val4i(s[32], s[33], s[34], s[35]),
                        ),
                    ),
                )
            } else {
                None
            }
        } else if tag == ids::GYRO_CALIBRATION_DATA {
            if s.len() >= 24 {
                Some(
                    PacketView::GyroCalibration(
                        pid,
                        GyroCalibrationData(
                            val4(s[12], s[13], s[14], s[15]),
                            val4(s[16], s[17], s[18], s[19]),
                            val4(s[20], s[21], s[22], s[23]),
                        ),
                    ),
                )
            } else {
                None
            }
        } else if tag == ids::CONFIG {
            if s.len() >= 13 {
                Some(PacketView::Config(pid, ConfigurationData(s[12])))
            } else {
                None
            }
        } else if tag == ids::RAW_MAGNETOMETER {
            if s.len() >= 24 {
                Some(PacketView::RawMagnetometer(pid, vec3_at(s, 12)))
            } else {
                None
            }
        } else if tag == ids::PING {
            if s.len() >= 16 {
                Some(PacketView::Ping(pid, val4i(s[12], s[13], s[14], s[15])))
            } else {
                None
            }
        } else if tag == ids::SERIAL {
            match lenstr_at(s, 12) {
                Some(d) => Some(PacketView::Serial(pid, d)),
                None => None,
            }
        } else if tag == ids::BATTERY {
            if s.len() >= 16 {
                Some(PacketView::Battery(pid, BatteryData(val4(s[12], s[13], s[14], s[15]))))
            } else {
                None
            }
        } else if tag == ids::TAP {
            if s.len() >= 14 {
                Some(PacketView::Tap(pid, s[12] as i8, TapData(s[13] as i8)))
            } else {
                None
            }
        } else if tag == ids::RESET_REASON {
            if s.len() >= 13 {
                Some(PacketView::ResetReason(pid, ResetReasonData(s[12] as i8)))
            } else {
                None
            }
        } else if tag == ids::SENSOR_INFO {
            if s.len() >= 14 {
                Some(PacketView::SensorInfo(pid, s[12] as i8, SensorInfoData { status: s[13] as i8 }))
            } else {
                None
            }
        } else if tag == ids::ROTATION_2 {
            if s.len() >= 28 {
                Some(PacketView::Rotation2(pid, quat_at(s, 12)))
            } else {
                None
            }
        } else if tag == ids::ROTATION_DATA {
            if s.len() >= 14 && (s[13] == 1 || s[13] == 2) && s.len() >= 31 {
                let q = quat_at(s, 14);
                let ci = CalibrationInfo(s[30] as i8);
                Some(
                    PacketView::RotationData(
                        pid,
                        s[12] as i8,
                        if s[13] == 1 {
                            RotationDataType::Normal(q, ci)
                        } else {
                            RotationDataType::Correction(q, ci)
                        },
                    ),
                )
            } else {
                None
            }
        } else if tag == ids::MAGNETOMETER_ACCURACY {
            if s.len() >= 17 {
                Some(
                    PacketView::MagnetometerAccuracy(
                        pid,
                        s[12] as i8,
                        MagnetometerAccuracyData(val4(s[13], s[14], s[15], s[16])),
                    ),
                )
            } else {
                None
            }
        } else {
            None
        }
    }
}

/// Reads the quaternion at index `i`.
pub fn read_quat(b: &[u8], i: usize) -> (r: Quaternion)
    requires
        i + 16 <= b.len(),
    ensures
        r == quat_at(b@, i as int),
{
    Quaternion {
        x: read_u32(b, i),
        y: read_u32(b, i + 4),
        z: read_u32(b, i + 8),
        w: read_u32(b, i + 12),
    }
}

/// Reads the vector at index `i`.
pub fn read_vec3(b: &[u8], i: usize) -> (r: Vector)
    requires
        i + 12 <= b.len(),
    ensures
        r == vec3_at(b@, i as int),
{
    Vector { x: read_u32(b, i), y: read_u32(b, i + 4), z: read_u32(b, i + 8) }
}

/// Reads the length-prefixed string at index `i`.
pub fn read_lenstr(b: &[u8], i: usize) -> (r: Option<StringWithLength>)
    ensures
        match lenstr_at(b@, i as int) {
            Some(d) => r matches Some(sl) && sl@ == d && sl.wf(),
            None => r is None,
        },
{
    if i >= b.len() {
        return None;
    }
    let l = b[i] as usize;
    if b.len() - (i + 1) < l {
        return None;
    }
    let mut data: Vec<u8> = Vec::new();
    let mut k: usize = 0;
    while k < l
        invariant
            i + 1 + l <= b.len(),
            l <= 255,
            k <= l,
            l == b@[i as int],
            data@ =~= b@.subrange(i + 1, i + 1 + k),
        decreases l - k,
    {
        data.push(b[i + 1 + k]);
        k = k + 1;
    }
    assert(data@ =~= b@.subrange(i + 1, i + 1 + b@[i as int]));
    match StringWithLength::new(data) {
        Some(sl) => Some(sl),
        None => None,
    }
}

/// Reads the six identity bytes at index `i`.
pub fn read_mac(b: &[u8], i: usize) -> (r: MacAddress)
    requires
        i + 6 <= b.len(),
    ensures
        r == MacAddress(
            b[i as int],
            b[i + 1],
            b[i + 2],
            b[i + 3],
            b[i + 4],
            b[i + 5],
        ),
{
    MacAddress(b[i], b[i + 1], b[i + 2], b[i + 3], b[i + 4], b[i + 5])
}

/// Decodes the handshake payload of an uplink buffer, applying the
/// backward-compatibility defaults of `spec_parse_handshake`.
pub fn parse_handshake(b: &[u8]) -> (r: Option<HandshakeData>)
    requires
        b.len() >= 12,
    ensures
        match spec_parse_handshake(b@) {
            Some(hv) => r matches Some(h) && h@ == hv && h.wf(),
            None => r is None,
        },
{
    let n = b.len();
    let mut i: usize = 12;
    let board_type: i32;
    if n - i >= 4 {
        board_type = read_i32(b, i);
        i = i + 4;
    } else {
        board_type = 0;
    }
    let imu_type: i32;
    if n - i >= 4 {
        imu_type = read_i32(b, i);
        i = i + 4;
    } else {
        imu_type = 0;
    }
    let mcu_type: i32;
    if n - i >= 4 {
        mcu_type = read_i32(b, i);
        i = i + 4;
    } else {
        mcu_type = 0;
    }
    let imu_info: ImuInfo;
    if n - i >= 12 {
        imu_info = ImuInfo(read_i32(b, i), read_i32(b, i + 4), read_i32(b, i + 8));
        i = i + 12;
    } else {
        imu_info = ImuInfo(0, 0, 0);
    }
    let firmware_build: i32;
    if n - i >= 4 {
        firmware_build = read_i32(b, i);
        i = i + 4;
    } else {
        firmware_build = 0;
    }
    let firmware: FirmwareString;
    if n - i >= 1 {
        match read_lenstr(b, i) {
            Some(sl) => {
                let l = sl.len();
                firmware = FirmwareString(sl);
                i = i + 1 + l;
            },
            None => {
                return None;
            },
        }
    } else {
        firmware = FirmwareString::default();
    }
    let mac_address: MacAddress;
    if n - i >= 6 {
        mac_address = read_mac(b, i);
    } else {
        mac_address = MacAddress(0, 0, 0, 0, 0, 0);
    }
    Some(
        HandshakeData {
            board_type,
            imu_type,
            mcu_type,
            imu_info,
            firmware_build,
            firmware,
            mac_address,
        },
    )
}

/// Decodes one uplink buffer, as `spec_parse` describes: `None` on a short
/// buffer, an unknown tag, a payload that does not fit, or an invalid
/// rotation-data sub-type.
pub fn parse_slice(b: &[u8]) -> (r: Option<PacketType>)
    ensures
        match spec_parse(b@) {
            Some(v) => r matches Some(p) && p@ == v && p.wf(),
            None => r is None,
        },
{
    let n = b.len();
    if n < 12 {
        return None;
    }
    let tag = read_u32(b, 0);
    let pid = read_u64(b, 4);
    if tag == ids::HEARTBEAT {
        Some(PacketType::Heartbeat(pid))
    } else if tag == ids::ROTATION {
        if n >= 28 {
            Some(PacketType::Rotation(pid, read_quat(b, 12)))
        } else {
            None
        }
    } else if tag == ids::GYROSCOPE {
        if n >= 24 {
            Some(PacketType::Gyroscope(pid, read_vec3(b, 12)))
        } else {
            None
        }
    } else if tag == ids::HANDSHAKE {
        match parse_handshake(b) {
            Some(h) => Some(PacketType::Handshake(pid, h)),
            None => None,
        }
    } else if tag == ids::ACCELEROMETER {
        if n >= 24 {
            Some(PacketType::Accelerometer(pid, read_vec3(b, 12)))
        } else {
            None
        }
    } else if tag == ids::MAGNETOMETER {
        if n >= 24 {
            Some(PacketType::Magnetometer(pid, read_vec3(b, 12)))
        } else {
            None
        }
    } else if tag == ids::RAW_CALIBRATION_DATA {
        if n >= 36 {
            Some(
                PacketType::RawCalibration(
                    pid,
                    RawCalibrationData(
                        read_i32(b, 12),
                        read_i32(b, 16),
                        read_i32(b, 20),
                        read_i32(b, 24),
                        read_i32(b, 28),
                        read_i32(b, 32),
                    ),
                ),
            )
        } else {
            None
        }
    } else if tag == ids::GYRO_CALIBRATION_DATA {
        if n >= 24 {
            Some(
                PacketType::GyroCalibration(
                    pid,
                    GyroCalibrationData(read_u32(b, 12), read_u32(b, 16), read_u32(b, 20)),
                ),
            )
        } else {
            None
        }
    } else if tag == ids::CONFIG {
        if n >= 13 {
            Some(PacketType::Config(pid, ConfigurationData(b[12])))
        } else {
            None
        }
    } else if tag == ids::RAW_MAGNETOMETER {
        if n >= 24 {
            Some(PacketType::RawMagnetometer(pid, read_vec3(b, 12)))
        } else {
            None
        }
    } else if tag == ids::PING {
        if n >= 16 {
            Some(PacketType::Ping(pid, read_i32(b, 12)))
        } else {
            None
        }
    } else if tag == ids::SERIAL {
        match read_lenstr(b, 12) {
            Some(sl) => Some(PacketType::Serial(pid, SerialData(sl))),
            None => None,
        }
    } else if tag == ids::BATTERY {
        if n >= 16 {
            Some(PacketType::Battery(pid, BatteryData(read_u32(b, 12))))
        } else {
            None
        }
    } else if tag == ids::TAP {
        if n >= 14 {
            Some(PacketType::Tap(pid, read_i8(b, 12), TapData(read_i8(b, 13))))
        } else {
            None
        }
    } else if tag == ids::RESET_REASON {
        if n >= 13 {
            Some(PacketType::ResetReason(pid, ResetReasonData(read_i8(b, 12))))
        } else {
            None
        }
    } else if tag == ids::SENSOR_INFO {
        if n >= 14 {
            Some(PacketType::SensorInfo(pid, read_i8(b, 12), SensorInfoData { status: read_i8(b, 13) }))
        } else {
            None
        }
    } else if tag == ids::ROTATION_2 {
        if n >= 28 {
            Some(PacketType::Rotation2(pid, read_quat(b, 12)))
        } else {
            None
        }
    } else if tag == ids::ROTATION_DATA {
        if n >= 14 && (b[13] == 1 || b[13] == 2) && n >= 31 {
            let q = read_quat(b, 14);
            let ci = CalibrationInfo(read_i8(b, 30));
            let sub = if b[13] == 1 {
                RotationDataType::Normal(q, ci)
            } else {
                RotationDataType::Correction(q, ci)
            };
            Some(PacketType::RotationData(pid, read_i8(b, 12), sub))
        } else {
            None
        }
    } else if tag == ids::MAGNETOMETER_ACCURACY {
        if n >= 17 {
            Some(
                PacketType::MagnetometerAccuracy(
                    pid,
                    read_i8(b, 12),
                    MagnetometerAccuracyData(read_u32(b, 13)),
                ),
            )
        } else {
            None
        }
    } else {
        None
    }
}

/// The bytes of a quaternion: four big-endian bit patterns.
pub open spec fn spec_encode_quat(q: Quaternion) -> Seq<u8> {
    be4(q.x) + be4(q.y) + be4(q.z) + be4(q.w)
}

/// The bytes of a vector: three big-endian bit patterns.
pub open spec fn spec_encode_vec3(v: Vector) -> Seq<u8> {
    be4(v.x) + be4(v.y) + be4(v.z)
}

/// The bytes of a length-prefixed string: the length byte, then the
/// payload, and nothing else (no terminator).
pub open spec fn spec_encode_lenstr(d: Seq<u8>) -> Seq<u8> {
    seq![d.len() as u8] + d
}

/// The bytes of the six identity bytes.
pub open spec fn spec_encode_mac(m: MacAddress) -> Seq<u8> {
    seq![m.0, m.1, m.2, m.3, m.4, m.5]
}

/// The bytes of a handshake payload.  Encoding always writes every field;
/// the conditional presence of `spec_parse_handshake` exists only to accept
/// older, shorter senders.
pub open spec fn spec_encode_handshake(h: HandshakeView) -> Seq<u8> {
    be4i(h.board_type) + be4i(h.imu_type) + be4i(h.mcu_type) + be4i(h.imu_info.0) + be4i(
        h.imu_info.1,
    ) + be4i(h.imu_info.2) + be4i(h.firmware_build) + spec_encode_lenstr(h.firmware)
        + spec_encode_mac(h.mac_address)
}

/// The tag of an uplink packet.
pub open spec fn tag_of(v: PacketView) -> u32 {
    match v {
        PacketView::Heartbeat(_) => ids::HEARTBEAT,
        PacketView::Rotation(_, _) => ids::ROTATION,
        PacketView::Gyroscope(_, _) => ids::GYROSCOPE,
        PacketView::Handshake(_, _) => ids::HANDSHAKE,
        PacketView::Accelerometer(_, _) => ids::ACCELEROMETER,
        PacketView::Magnetometer(_, _) => ids::MAGNETOMETER,
        PacketView::RawCalibration(_, _) => ids::RAW_CALIBRATION_DATA,
        PacketView::GyroCalibration(_, _) => ids::GYRO_CALIBRATION_DATA,
        PacketView::Config(_, _) => ids::CONFIG,
        PacketView::RawMagnetometer(_, _) => ids::RAW_MAGNETOMETER,
        PacketView::Ping(_, _) => ids::PING,
        PacketView::Serial(_, _) => ids::SERIAL,
        PacketView::Battery(_, _) => ids::BATTERY,
        PacketView::Tap(_, _, _) => ids::TAP,
        PacketView::ResetReason(_, _) => ids::RESET_REASON,
        PacketView::SensorInfo(_, _, _) => ids::SENSOR_INFO,
        PacketView::Rotation2(_, _) => ids::ROTATION_2,
        PacketView::RotationData(_, _, _) => ids::ROTATION_DATA,
        PacketView::MagnetometerAccuracy(_, _, _) => ids::MAGNETOMETER_ACCURACY,
    }
}

/// The sequence number of an uplink packet.
pub open spec fn pid_of(v: PacketView) -> u64 {
    match v {
        PacketView::Heartbeat(pid) => pid,
        PacketView::Rotation(pid, _) => pid,
        PacketView::Gyroscope(pid, _) => pid,
        PacketView::Handshake(pid, _) => pid,
        PacketView::Accelerometer(pid, _) => pid,
        PacketView::Magnetometer(pid, _) => pid,
        PacketView::RawCalibration(pid, _) => pid,
        PacketView::GyroCalibration(pid, _) => pid,
        PacketView::Config(pid, _) => pid,
        PacketView::RawMagnetometer(pid, _) => pid,
        PacketView::Ping(pid, _) => pid,
        PacketView::Serial(pid, _) => pid,
        PacketView::Battery(pid, _) => pid,
        PacketView::Tap(pid, _, _) => pid,
        PacketView::ResetReason(pid, _) => pid,
        PacketView::SensorInfo(pid, _, _) => pid,
        PacketView::Rotation2(pid, _) => pid,
        PacketView::RotationData(pid, _, _) => pid,
        PacketView::MagnetometerAccuracy(pid, _, _) => pid,
    }
}

/// The payload bytes of an uplink packet.
pub open spec fn spec_payload(v: PacketView) -> Seq<u8> {
    match v {
        PacketView::Heartbeat(_) => Seq::<u8>::empty(),
        PacketView::Rotation(_, q) => spec_encode_quat(q),
        PacketView::Gyroscope(_, w) => spec_encode_vec3(w),
        PacketView::Handshake(_, h) => spec_encode_handshake(h),
        PacketView::Accelerometer(_, w) => spec_encode_vec3(w),
        PacketView::Magnetometer(_, w) => spec_encode_vec3(w),
        PacketView::RawCalibration(_, c) => be4i(c.0) + be4i(c.1) + be4i(c.2) + be4i(c.3) + be4i(
            c.4,
        ) + be4i(c.5),
        PacketView::GyroCalibration(_, c) => be4(c.0) + be4(c.1) + be4(c.2),
        PacketView::Config(_, c) => seq![c.0],
        PacketView::RawMagnetometer(_, w) => spec_encode_vec3(w),
        PacketView::Ping(_, e) => be4i(e),
        PacketView::Serial(_, d) => spec_encode_lenstr(d),
        PacketView::Battery(_, l) => be4(l.0),
        PacketView::Tap(_, sid, t) => seq![sid as u8, t.0 as u8],
        PacketView::ResetReason(_, r) => seq![r.0 as u8],
        PacketView::SensorInfo(_, sid, d) => seq![sid as u8, d.status as u8],
        PacketView::Rotation2(_, q) => spec_encode_quat(q),
        PacketView::RotationData(_, sid, t) => match t {
            RotationDataType::Normal(q, ci) => seq![sid as u8, 1u8] + spec_encode_quat(q) + seq![
                ci.0 as u8,
            ],
            RotationDataType::Correction(q, ci) => seq![sid as u8, 2u8] + spec_encode_quat(q)
                + seq![ci.0 as u8],
        },
        PacketView::MagnetometerAccuracy(_, sid, a) => seq![sid as u8] + be4(a.0),
    }
}

/// The bytes of an uplink packet: tag, sequence number, payload.
pub open spec fn spec_encode(v: PacketView) -> Seq<u8> {
    be4(tag_of(v)) + be8(pid_of(v)) + spec_payload(v)
}

/// Appends the bytes of a quaternion.
pub fn push_quat(out: &mut Vec<u8>, q: &Quaternion)
    ensures
        final(out)@ == old(out)@ + spec_encode_quat(*q),
{
    push_u32(out, q.x);
    push_u32(out, q.y);
    push_u32(out, q.z);
    push_u32(out, q.w);
    assert(out@ =~= old(out)@ + spec_encode_quat(*q));
}

/// Appends the bytes of a vector.
pub fn push_vec3(out: &mut Vec<u8>, v: &Vector)
    ensures
        final(out)@ == old(out)@ + spec_encode_vec3(*v),
{
    push_u32(out, v.x);
    push_u32(out, v.y);
    push_u32(out, v.z);
    assert(out@ =~= old(out)@ + spec_encode_vec3(*v));
}

/// Appends a length-prefixed string: the length byte, then the payload
/// bytes, with no terminator.
pub fn push_lenstr(out: &mut Vec<u8>, s: &StringWithLength)
    requires
        s.wf(),
    ensures
        final(out)@ == old(out)@ + spec_encode_lenstr(s@),
{
    let bs = s.bytes();
    let l = bs.len();
    out.push(l as u8);
    let mut k: usize = 0;
    while k < l
        invariant
            l == bs@.len(),
            l <= 255,
            k <= l,
            bs@ == s@,
            out@ =~= old(out)@ + seq![l as u8] + bs@.subrange(0, k as int),
        decreases l - k,
    {
        out.push(bs[k]);
        k = k + 1;
    }
    assert(out@ =~= old(out)@ + spec_encode_lenstr(s@));
}

/// Appends the six identity bytes.
pub fn push_mac(out: &mut Vec<u8>, m: &MacAddress)
    ensures
        final(out)@ == old(out)@ + spec_encode_mac(*m),
{
    out.push(m.0);
    out.push(m.1);
    out.push(m.2);
    out.push(m.3);
    out.push(m.4);
    out.push(m.5);
    assert(out@ =~= old(out)@ + spec_encode_mac(*m));
}

/// Appends a handshake payload; every field is written.
pub fn push_handshake(out: &mut Vec<u8>, h: &HandshakeData)
    requires
        h.wf(),
    ensures
        final(out)@ == old(out)@ + spec_encode_handshake(h@),
{
    push_i32(out, h.board_type);
    push_i32(out, h.imu_type);
    push_i32(out, h.mcu_type);
    push_i32(out, h.imu_info.0);
    push_i32(out, h.imu_info.1);
    push_i32(out, h.imu_info.2);
    push_i32(out, h.firmware_build);
    push_lenstr(out, &h.firmware.0);
    push_mac(out, &h.mac_address);
    assert(out@ =~= old(out)@ + spec_encode_handshake(h@));
}

/// Encodes one uplink packet, the exact inverse of `parse_slice`:
/// a conforming decode-then-encode round trip is byte-identical.
pub fn to_bytes(pk: &PacketType) -> (r: Option<Vec<u8>>)
    requires
        pk.wf(),
    ensures
        r matches Some(bytes) && bytes@ == spec_encode(pk@),
{
    let mut out: Vec<u8> = Vec::new();
    match pk {
        PacketType::Heartbeat(pid) => {
            push_u32(&mut out, ids::HEARTBEAT);
            push_u64(&mut out, *pid);
        },
        PacketType::Rotation(pid, q) => {
            push_u32(&mut out, ids::ROTATION);
            push_u64(&mut out, *pid);
            push_quat(&mut out, q);
        },
        PacketType::Gyroscope(pid, v) => {
            push_u32(&mut out, ids::GYROSCOPE);
            push_u64(&mut out, *pid);
            push_vec3(&mut out, v);
        },
        PacketType::Handshake(pid, h) => {
            push_u32(&mut out, ids::HANDSHAKE);
            push_u64(&mut out, *pid);
            push_handshake(&mut out, h);
        },
        PacketType::Accelerometer(pid, v) => {
            push_u32(&mut out, ids::ACCELEROMETER);
            push_u64(&mut out, *pid);
            push_vec3(&mut out, v);
        },
        PacketType::Magnetometer(pid, v) => {
            push_u32(&mut out, ids::MAGNETOMETER);
            push_u64(&mut out, *pid);
            push_vec3(&mut out, v);
        },
        PacketType::RawCalibration(pid, c) => {
            push_u32(&mut out, ids::RAW_CALIBRATION_DATA);
            push_u64(&mut out, *pid);
            push_i32(&mut out, c.0);
            push_i32(&mut out, c.1);
            push_i32(&mut out, c.2);
            push_i32(&mut out, c.3);
            push_i32(&mut out, c.4);
            push_i32(&mut out, c.5);
        },
        PacketType::GyroCalibration(pid, c) => {
            push_u32(&mut out, ids::GYRO_CALIBRATION_DATA);
            push_u64(&mut out, *pid);
            push_u32(&mut out, c.0);
            push_u32(&mut out, c.1);
            push_u32(&mut out, c.2);
        },
        PacketType::Config(pid, c) => {
            push_u32(&mut out, ids::CONFIG);
            push_u64(&mut out, *pid);
            out.push(c.0);
        },
        PacketType::RawMagnetometer(pid, v) => {
            push_u32(&mut out, ids::RAW_MAGNETOMETER);
            push_u64(&mut out, *pid);
            push_vec3(&mut out, v);
        },
        PacketType::Ping(pid, e) => {
            push_u32(&mut out, ids::PING);
            push_u64(&mut out, *pid);
            push_i32(&mut out, *e);
        },
        PacketType::Serial(pid, d) => {
            push_u32(&mut out, ids::SERIAL);
            push_u64(&mut out, *pid);
            push_lenstr(&mut out, &d.0);
        },
        PacketType::Battery(pid, l) => {
            push_u32(&mut out, ids::BATTERY);
            push_u64(&mut out, *pid);
            push_u32(&mut out, l.0);
        },
        PacketType::Tap(pid, sid, t) => {
            push_u32(&mut out, ids::TAP);
            push_u64(&mut out, *pid);
            out.push(*sid as u8);
            out.push(t.0 as u8);
        },
        PacketType::ResetReason(pid, r) => {
            push_u32(&mut out, ids::RESET_REASON);
            push_u64(&mut out, *pid);
            out.push(r.0 as u8);
        },
        PacketType::SensorInfo(pid, sid, d) => {
            push_u32(&mut out, ids::SENSOR_INFO);
            push_u64(&mut out, *pid);
            out.push(*sid as u8);
            out.push(d.status as u8);
        },
        PacketType::Rotation2(pid, q) => {
            push_u32(&mut out, ids::ROTATION_2);
            push_u64(&mut out, *pid);
            push_quat(&mut out, q);
        },
        PacketType::RotationData(pid, sid, t) => {
            push_u32(&mut out, ids::ROTATION_DATA);
            push_u64(&mut out, *pid);
            out.push(*sid as u8);
            match t {
                RotationDataType::Normal(q, ci) => {
                    out.push(1);
                    push_quat(&mut out, q);
                    out.push(ci.0 as u8);
                },
                RotationDataType::Correction(q, ci) => {
                    out.push(2);
                    push_quat(&mut out, q);
                    out.push(ci.0 as u8);
                },
            }
        },
        PacketType::MagnetometerAccuracy(pid, sid, a) => {
            push_u32(&mut out, ids::MAGNETOMETER_ACCURACY);
            push_u64(&mut out, *pid);
            out.push(*sid as u8);
            push_u32(&mut out, a.0);
        },
    }
    assert(out@ =~= spec_encode(pk@));
    Some(out)
}

/// The tag and the sequence number of an encoded packet decode back, and
/// the bytes after the header are exactly the payload.
proof fn lemma_header(v: PacketView)
    ensures
        ({
            let s = spec_encode(v);
            &&& s.len() == 12 + spec_payload(v).len()
            &&& val4(s[0], s[1], s[2], s[3]) == tag_of(v)
            &&& val8(s[4], s[5], s[6], s[7], s[8], s[9], s[10], s[11]) == pid_of(v)
            &&& forall|k: int|
                0 <= k < spec_payload(v).len() ==> s[12 + k] == spec_payload(v)[k]
        }),
{
    let s = spec_encode(v);
    let t = tag_of(v);
    let p = pid_of(v);
    lemma_val4_be4(t);
    lemma_val8_be8(p);
    assert(s[0] == be4(t)[0] && s[1] == be4(t)[1] && s[2] == be4(t)[2] && s[3] == be4(t)[3]);
    assert(s[4] == be8(p)[0] && s[5] == be8(p)[1] && s[6] == be8(p)[2] && s[7] == be8(p)[3] && s[8]
        == be8(p)[4] && s[9] == be8(p)[5] && s[10] == be8(p)[6] && s[11] == be8(p)[7]);
}

/// A quaternion decodes back from its own bytes at index `i`.
proof fn lemma_quat_at(s: Seq<u8>, i: int, q: Quaternion)
    requires
        0 <= i,
        i + 16 <= s.len(),
        forall|k: int| 0 <= k < 16 ==> s[i + k] == spec_encode_quat(q)[k],
    ensures
        quat_at(s, i) == q,
{
    let t = spec_encode_quat(q);
    assert(s[i + 0] == t[0] && s[i + 1] == t[1] && s[i + 2] == t[2] && s[i + 3] == t[3] && s[i + 4]
        == t[4] && s[i + 5] == t[5] && s[i + 6] == t[6] && s[i + 7] == t[7] && s[i + 8] == t[8]
        && s[i + 9] == t[9] && s[i + 10] == t[10] && s[i + 11] == t[11] && s[i + 12] == t[12] && s[
    i + 13] == t[13] && s[i + 14] == t[14] && s[i + 15] == t[15]);
    assert(t[0] == be4(q.x)[0] && t[1] == be4(q.x)[1] && t[2] == be4(q.x)[2] && t[3] == be4(
        q.x,
    )[3]);
    assert(t[4] == be4(q.y)[0] && t[5] == be4(q.y)[1] && t[6] == be4(q.y)[2] && t[7] == be4(
        q.y,
    )[3]);
    assert(t[8] == be4(q.z)[0] && t[9] == be4(q.z)[1] && t[10] == be4(q.z)[2] && t[11] == be4(
        q.z,
    )[3]);
    assert(t[12] == be4(q.w)[0] && t[13] == be4(q.w)[1] && t[14] == be4(q.w)[2] && t[15] == be4(
        q.w,
    )[3]);
    lemma_val4_be4(q.x);
    lemma_val4_be4(q.y);
    lemma_val4_be4(q.z);
    lemma_val4_be4(q.w);
}

/// A vector decodes back from its own bytes at index `i`.
pub proof fn lemma_vec3_at(s: Seq<u8>, i: int, v: Vector)
    requires
        0 <= i,
        i + 12 <= s.len(),
        forall|k: int| 0 <= k < 12 ==> s[i + k] == spec_encode_vec3(v)[k],
    ensures
        vec3_at(s, i) == v,
{
    let t = spec_encode_vec3(v);
    assert(s[i + 0] == t[0] && s[i + 1] == t[1] && s[i + 2] == t[2] && s[i + 3] == t[3] && s[i + 4]
        == t[4] && s[i + 5] == t[5] && s[i + 6] == t[6] && s[i + 7] == t[7] && s[i + 8] == t[8]
        && s[i + 9] == t[9] && s[i + 10] == t[10] && s[i + 11] == t[11]);
    assert(t[0] == be4(v.x)[0] && t[1] == be4(v.x)[1] && t[2] == be4(v.x)[2] && t[3] == be4(
        v.x,
    )[3]);
    assert(t[4] == be4(v.y)[0] && t[5] == be4(v.y)[1] && t[6] == be4(v.y)[2] && t[7] == be4(
        v.y,
    )[3]);
    assert(t[8] == be4(v.z)[0] && t[9] == be4(v.z)[1] && t[10] == be4(v.z)[2] && t[11] == be4(
        v.z,
    )[3]);
    lemma_val4_be4(v.x);
    lemma_val4_be4(v.y);
    lemma_val4_be4(v.z);
}

/// A handshake payload with every field written decodes back to the same
/// fields: each conditional-presence check succeeds in turn.
proof fn lemma_handshake_payload(s: Seq<u8>, h: HandshakeView)
    requires
        h.wf(),
        s.len() == 12 + 35 + h.firmware.len(),
        forall|k: int|
            0 <= k < 35 + h.firmware.len() ==> s[12 + k] == spec_encode_handshake(h)[k],
    ensures
        spec_parse_handshake(s) == Some(h),
{
    let fw = h.firmware;
    let fl = fw.len() as int;
    let p = spec_encode_handshake(h);
    assert(p.len() == 35 + fl);
    assert(s[12 + 0int] == p[0] && s[12 + 1int] == p[1] && s[12 + 2int] == p[2] && s[12 + 3int] == p[3]);
    assert(s[12 + 4int] == p[4] && s[12 + 5int] == p[5] && s[12 + 6int] == p[6] && s[12 + 7int] == p[7]);
    assert(s[12 + 8int] == p[8] && s[12 + 9int] == p[9] && s[12 + 10int] == p[10] && s[12 + 11int] == p[11]);
    assert(s[12 + 12int] == p[12] && s[12 + 13int] == p[13] && s[12 + 14int] == p[14] && s[12 + 15int]
        == p[15]);
    assert(s[12 + 16int] == p[16] && s[12 + 17int] == p[17] && s[12 + 18int] == p[18] && s[12 + 19int]
        == p[19]);
    assert(s[12 + 20int] == p[20] && s[12 + 21int] == p[21] && s[12 + 22int] == p[22] && s[12 + 23int]
        == p[23]);
    assert(s[12 + 24int] == p[24] && s[12 + 25int] == p[25] && s[12 + 26int] == p[26] && s[12 + 27int]
        == p[27]);
    assert(s[12 + 28int] == p[28]);
    assert(p[0] == be4i(h.board_type)[0] && p[1] == be4i(h.board_type)[1] && p[2] == be4i(
        h.board_type,
    )[2] && p[3] == be4i(h.board_type)[3]);
    assert(p[4] == be4i(h.imu_type)[0] && p[5] == be4i(h.imu_type)[1] && p[6] == be4i(h.imu_type)[2]
        && p[7] == be4i(h.imu_type)[3]);
    assert(p[8] == be4i(h.mcu_type)[0] && p[9] == be4i(h.mcu_type)[1] && p[10] == be4i(h.mcu_type)[2]
        && p[11] == be4i(h.mcu_type)[3]);
    assert(p[12] == be4i(h.imu_info.0)[0] && p[13] == be4i(h.imu_info.0)[1] && p[14] == be4i(
        h.imu_info.0,
    )[2] && p[15] == be4i(h.imu_info.0)[3]);
    assert(p[16] == be4i(h.imu_info.1)[0] && p[17] == be4i(h.imu_info.1)[1] && p[18] == be4i(
        h.imu_info.1,
    )[2] && p[19] == be4i(h.imu_info.1)[3]);
    assert(p[20] == be4i(h.imu_info.2)[0] && p[21] == be4i(h.imu_info.2)[1] && p[22] == be4i(
        h.imu_info.2,
    )[2] && p[23] == be4i(h.imu_info.2)[3]);
    assert(p[24] == be4i(h.firmware_build)[0] && p[25] == be4i(h.firmware_build)[1] && p[26]
        == be4i(h.firmware_build)[2] && p[27] == be4i(h.firmware_build)[3]);
    assert(p[28] == fl as u8);
    lemma_val4i_be4i(h.board_type);
    lemma_val4i_be4i(h.imu_type);
    lemma_val4i_be4i(h.mcu_type);
    lemma_val4i_be4i(h.imu_info.0);
    lemma_val4i_be4i(h.imu_info.1);
    lemma_val4i_be4i(h.imu_info.2);
    lemma_val4i_be4i(h.firmware_build);
    let n = s.len() as int;
    assert(val4i(s[12], s[13], s[14], s[15]) == h.board_type);
    assert(val4i(s[16], s[17], s[18], s[19]) == h.imu_type);
    assert(val4i(s[20], s[21], s[22], s[23]) == h.mcu_type);
    assert(val4i(s[24], s[25], s[26], s[27]) == h.imu_info.0);
    assert(val4i(s[28], s[29], s[30], s[31]) == h.imu_info.1);
    assert(val4i(s[32], s[33], s[34], s[35]) == h.imu_info.2);
    assert(val4i(s[36], s[37], s[38], s[39]) == h.firmware_build);
    assert(s[40] == fl as u8);
    assert(s[40] == fl);
    assert(n >= 41 + fl);
    assert(forall|k: int| 0 <= k < fl ==> s[41 + k] == fw[k]) by {
        assert forall|k: int| 0 <= k < fl implies s[41 + k] == fw[k] by {
            assert(s[12 + (29 + k)] == p[29 + k]);
            assert(p[29 + k] == fw[k]);
        };
    };
    assert(s.subrange(41, 41 + fl) =~= fw);
    assert(s[12 + (29 + fl)] == p[29 + fl] && s[12 + (30 + fl)] == p[30 + fl] && s[12 + (31 + fl)]
        == p[31 + fl] && s[12 + (32 + fl)] == p[32 + fl] && s[12 + (33 + fl)] == p[33 + fl] && s[12
        + (34 + fl)] == p[34 + fl]);
    assert(p[29 + fl] == h.mac_address.0 && p[30 + fl] == h.mac_address.1 && p[31 + fl]
        == h.mac_address.2 && p[32 + fl] == h.mac_address.3 && p[33 + fl] == h.mac_address.4 && p[
        34 + fl] == h.mac_address.5);
    assert(s[41 + fl] == h.mac_address.0 && s[42 + fl] == h.mac_address.1 && s[43 + fl]
        == h.mac_address.2 && s[44 + fl] == h.mac_address.3 && s[45 + fl] == h.mac_address.4 && s[
        46 + fl] == h.mac_address.5);
    assert(spec_parse_handshake(s) == Some(h));
}

/// Backward-compatibility law: a handshake buffer holding only the 4-byte
/// tag and the 8-byte sequence number decodes, and every missing field
/// takes its fixed default: type codes 0, IMU info (0, 0, 0), firmware
/// build 0, firmware name `owoTrack`, all-zero identity.
pub proof fn lemma_handshake_backcompat(s: Seq<u8>)
    requires
        s.len() == 12,
        val4(s[0], s[1], s[2], s[3]) == ids::HANDSHAKE,
    ensures
        spec_parse(s) == Some(
            PacketView::Handshake(
                val8(s[4], s[5], s[6], s[7], s[8], s[9], s[10], s[11]),
                HandshakeView {
                    board_type: 0,
                    imu_type: 0,
                    mcu_type: 0,
                    imu_info: ImuInfo(0, 0, 0),
                    firmware_build: 0,
                    firmware: default_firmware_bytes(),
                    mac_address: MacAddress(0, 0, 0, 0, 0, 0),
                },
            ),
        ),
{
}

/// Rejection law: a rotation-data packet whose sub-type byte is neither 1
/// (Normal) nor 2 (Correction) fails to decode as a whole, yielding no
/// packet rather than a default-filled one.
pub proof fn lemma_rotation_data_subtype_rejected(s: Seq<u8>)
    requires
        s.len() >= 14,
        val4(s[0], s[1], s[2], s[3]) == ids::ROTATION_DATA,
        s[13] != 1,
        s[13] != 2,
    ensures
        spec_parse(s) is None,
{
}

/// Round-trip law: decoding an encoded uplink packet yields the packet
/// back, for every well-formed packet of every defined kind, and the
/// re-encoded bytes therefore equal the original bytes.
#[verifier::rlimit(100)]
pub proof fn lemma_roundtrip(v: PacketView)
    requires
        v.wf(),
    ensures
        spec_parse(spec_encode(v)) == Some(v),
{
    let s = spec_encode(v);
    lemma_header(v);
    let pl = spec_payload(v);
    match v {
        PacketView::Heartbeat(_) => {},
        PacketView::Rotation(_, q) => {
            lemma_quat_at(s, 12, q);
        },
        PacketView::Gyroscope(_, w) => {
            lemma_vec3_at(s, 12, w);
        },
        PacketView::Handshake(_, h) => {
            lemma_handshake_payload(s, h);
        },
        PacketView::Accelerometer(_, w) => {
            lemma_vec3_at(s, 12, w);
        },
        PacketView::Magnetometer(_, w) => {
            lemma_vec3_at(s, 12, w);
        },
        PacketView::RawCalibration(_, c) => {
            assert(s[12 + 0int] == pl[0] && s[12 + 1int] == pl[1] && s[12 + 2int] == pl[2] && s[12 + 3int]
                == pl[3] && s[12 + 4int] == pl[4] && s[12 + 5int] == pl[5] && s[12 + 6int] == pl[6] && s[12 + 7int] == pl[7] && s[12 + 8int] == pl[8] && s[12 + 9int] == pl[9] && s[12 + 10int] == pl[10]
                && s[12 + 11int] == pl[11]);
            assert(s[12 + 12int] == pl[12] && s[12 + 13int] == pl[13] && s[12 + 14int] == pl[14] && s[12 + 15int] == pl[15] && s[12 + 16int] == pl[16] && s[12 + 17int] == pl[17] && s[12 + 18int]
                == pl[18] && s[12 + 19int] == pl[19] && s[12 + 20int] == pl[20] && s[12 + 21int] == pl[21]
                && s[12 + 22int] == pl[22] && s[12 + 23int] == pl[23]);
            assert(pl[0] == be4i(c.0)[0] && pl[1] == be4i(c.0)[1] && pl[2] == be4i(c.0)[2] && pl[3]
                == be4i(c.0)[3]);
            assert(pl[4] == be4i(c.1)[0] && pl[5] == be4i(c.1)[1] && pl[6] == be4i(c.1)[2] && pl[7]
                == be4i(c.1)[3]);
            assert(pl[8] == be4i(c.2)[0] && pl[9] == be4i(c.2)[1] && pl[10] == be4i(c.2)[2] && pl[
            11] == be4i(c.2)[3]);
            assert(pl[12] == be4i(c.3)[0] && pl[13] == be4i(c.3)[1] && pl[14] == be4i(c.3)[2] && pl[
            15] == be4i(c.3)[3]);
            assert(pl[16] == be4i(c.4)[0] && pl[17] == be4i(c.4)[1] && pl[18] == be4i(c.4)[2] && pl[
            19] == be4i(c.4)[3]);
            assert(pl[20] == be4i(c.5)[0] && pl[21] == be4i(c.5)[1] && pl[22] == be4i(c.5)[2] && pl[
            23] == be4i(c.5)[3]);
            lemma_val4i_be4i(c.0);
            lemma_val4i_be4i(c.1);
            lemma_val4i_be4i(c.2);
            lemma_val4i_be4i(c.3);
            lemma_val4i_be4i(c.4);
            lemma_val4i_be4i(c.5);
            assert(val4i(s[12], s[13], s[14], s[15]) == c.0);
            assert(val4i(s[16], s[17], s[18], s[19]) == c.1);
            assert(val4i(s[20], s[21], s[22], s[23]) == c.2);
            assert(val4i(s[24], s[25], s[26], s[27]) == c.3);
            assert(val4i(s[28], s[29], s[30], s[31]) == c.4);
            assert(val4i(s[32], s[33], s[34], s[35]) == c.5);
        },
        PacketView::GyroCalibration(_, c) => {
            assert(s[12 + 0int] == pl[0] && s[12 + 1int] == pl[1] && s[12 + 2int] == pl[2] && s[12 + 3int]
                == pl[3] && s[12 + 4int] == pl[4] && s[12 + 5int] == pl[5] && s[12 + 6int] == pl[6] && s[12 + 7int] == pl[7] && s[12 + 8int] == pl[8] && s[12 + 9int] == pl[9] && s[12 + 10int] == pl[10]
                && s[12 + 11int] == pl[11]);
            assert(pl[0] == be4(c.0)[0] && pl[1] == be4(c.0)[1] && pl[2] == be4(c.0)[2] && pl[3]
                == be4(c.0)[3]);
            assert(pl[4] == be4(c.1)[0] && pl[5] == be4(c.1)[1] && pl[6] == be4(c.1)[2] && pl[7]
                == be4(c.1)[3]);
            assert(pl[8] == be4(c.2)[0] && pl[9] == be4(c.2)[1] && pl[10] == be4(c.2)[2] && pl[11]
                == be4(c.2)[3]);
            lemma_val4_be4(c.0);
            lemma_val4_be4(c.1);
            lemma_val4_be4(c.2);
            assert(val4(s[12], s[13], s[14], s[15]) == c.0);
            assert(val4(s[16], s[17], s[18], s[19]) == c.1);
            assert(val4(s[20], s[21], s[22], s[23]) == c.2);
        },
        PacketView::Config(_, c) => {
            assert(s[12 + 0int] == pl[0]);
            assert(s[12] == c.0);
        },
        PacketView::RawMagnetometer(_, w) => {
            lemma_vec3_at(s, 12, w);
        },
        PacketView::Ping(_, e) => {
            assert(s[12 + 0int] == pl[0] && s[12 + 1int] == pl[1] && s[12 + 2int] == pl[2] && s[12 + 3int]
                == pl[3]);
            lemma_val4i_be4i(e);
            assert(val4i(s[12], s[13], s[14], s[15]) == e);
        },
        PacketView::Serial(_, d) => {
            let dl = d.len() as int;
            assert(s[12 + 0int] == pl[0]);
            assert(pl[0] == dl as u8);
            assert(s[12] == dl);
            assert(forall|k: int| 0 <= k < dl ==> s[13 + k] == d[k]) by {
                assert forall|k: int| 0 <= k < dl implies s[13 + k] == d[k] by {
                    assert(s[12 + (1 + k)] == pl[1 + k]);
                    assert(pl[1 + k] == d[k]);
                };
            };
            assert(s.subrange(13, 13 + dl) =~= d);
            assert(lenstr_at(s, 12) == Some(d));
        },
        PacketView::Battery(_, l) => {
            assert(s[12 + 0int] == pl[0] && s[12 + 1int] == pl[1] && s[12 + 2int] == pl[2] && s[12 + 3int]
                == pl[3]);
            lemma_val4_be4(l.0);
            assert(val4(s[12], s[13], s[14], s[15]) == l.0);
        },
        PacketView::Tap(_, sid, t) => {
            assert(s[12 + 0int] == pl[0] && s[12 + 1int] == pl[1]);
            lemma_cast_i8(sid);
            lemma_cast_i8(t.0);
        },
        PacketView::ResetReason(_, r) => {
            assert(s[12 + 0int] == pl[0]);
            lemma_cast_i8(r.0);
        },
        PacketView::SensorInfo(_, sid, d) => {
            assert(s[12 + 0int] == pl[0] && s[12 + 1int] == pl[1]);
            lemma_cast_i8(sid);
            lemma_cast_i8(d.status);
        },
        PacketView::Rotation2(_, q) => {
            lemma_quat_at(s, 12, q);
        },
        PacketView::RotationData(_, sid, t) => {
            lemma_cast_i8(sid);
            assert(s[12 + 0int] == pl[0] && s[12 + 1int] == pl[1] && s[12 + 18int] == pl[18]);
            let q = match t {
                RotationDataType::Normal(q, _) => q,
                RotationDataType::Correction(q, _) => q,
            };
            assert(forall|k: int| 0 <= k < 16 ==> s[14 + k] == spec_encode_quat(q)[k]) by {
                assert forall|k: int| 0 <= k < 16 implies s[14 + k] == spec_encode_quat(q)[k] by {
                    assert(s[12 + (2 + k)] == pl[2 + k]);
                    assert(pl[2 + k] == spec_encode_quat(q)[k]);
                };
            };
            lemma_quat_at(s, 14, q);
            match t {
                RotationDataType::Normal(_, ci) => {
                    lemma_cast_i8(ci.0);
                    assert(s[13] == 1);
                },
                RotationDataType::Correction(_, ci) => {
                    lemma_cast_i8(ci.0);
                    assert(s[13] == 2);
                },
            }
        },
        PacketView::MagnetometerAccuracy(_, sid, a) => {
            assert(s[12 + 0int] == pl[0] && s[12 + 1int] == pl[1] && s[12 + 2int] == pl[2] && s[12 + 3int]
                == pl[3] && s[12 + 4int] == pl[4]);
            assert(pl[1] == be4(a.0)[0] && pl[2] == be4(a.0)[1] && pl[3] == be4(a.0)[2] && pl[4]
                == be4(a.0)[3]);
            lemma_cast_i8(sid);
            lemma_val4_be4(a.0);
            assert(val4(s[13], s[14], s[15], s[16]) == a.0);
        },
    }
}

} // verus!
