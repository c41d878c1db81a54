//! The hub-to-device ("downlink") packet grammar.
//!
//! A 1-byte outer discriminant selects the frame: value 3 is a handshake,
//! framed with a fixed magic prefix and one version byte; value 0 is
//! "Other", framed as one zero pad byte, a 2-byte big-endian sub-tag and a
//! sub-payload.  The dual framing lets the 13-byte handshake be told apart
//! from the richer Other-framed messages without ambiguity.

pub mod ids;

use vstd::prelude::*;

use crate::server::{lemma_vec3_at, push_vec3, read_vec3, spec_encode_vec3, vec3_at};
use crate::types::{
    DeviceConfig, CalibrationConfig, Matrix3x3, PingId, SensorID, SensorStateNotified, Vector,
};
use crate::wire::{
    be2, be4, be4i, lemma_cast_i8, lemma_val2_be2, lemma_val4_be4, lemma_val4i_be4i, push_i32,
    push_u16, push_u32, read_i32, read_i8, read_u16, read_u32, val2, val4, val4i,
};

verus! {

/// The downlink handshake: the magic prefix followed by one byte holding
/// the ASCII character of the protocol version.
#[derive(Clone, Copy, PartialEq, Eq, Structural, Debug)]
pub struct ClientHandshake {
    pub version: u8,
}

/// A vibration command: duration, frequency and amplitude, each an
/// IEEE-754 single-precision bit pattern.
#[derive(Clone, Copy, PartialEq, Eq, Structural, Debug)]
pub struct VibrateData {
    pub duration_seconds: u32,
    pub frequency: u32,
    pub amplitude: u32,
}

/// An enumerated hub command, carried as a 4-byte identifier.
#[derive(Clone, Copy, PartialEq, Eq, Structural, Debug)]
pub enum CommandType {
    Calibrate,
    SendConfig,
    Blink,
}

/// A heartbeat pushed to the device, with one reserved byte.
#[derive(Clone, Copy, PartialEq, Eq, Structural, Debug)]
pub struct HeartbeatToClient {
    pub extra: u8,
}

/// The sub-payloads of the "Other" frame.
#[derive(Clone, Copy, PartialEq, Eq, Structural, Debug)]
pub enum OPacketType {
    Heartbeat(HeartbeatToClient),
    Vibrate(VibrateData),
    Command(CommandType),
    Config(DeviceConfig),
    Ping(PingId),
    SensorInfo(SensorID, SensorStateNotified),
}

/// One decoded downlink packet.
#[derive(Clone, Copy, PartialEq, Eq, Structural, Debug)]
pub enum PacketType {
    Handshake(ClientHandshake),
    Other(OPacketType),
}

/// The magic prefix of a downlink handshake: the ASCII bytes of
/// `Hey OVR =D` followed by one space.
pub open spec fn magic_bytes() -> Seq<u8> {
    seq![72u8, 101u8, 121u8, 32u8, 79u8, 86u8, 82u8, 32u8, 61u8, 68u8, 32u8]
}

/// The matrix whose nine bit patterns sit at index `i`, row by row.
pub open spec fn mat3_at(s: Seq<u8>, i: int) -> Matrix3x3 {
    Matrix3x3 {
        a00: val4(s[i], s[i + 1], s[i + 2], s[i + 3]),
        a01: val4(s[i + 4], s[i + 5], s[i + 6], s[i + 7]),
        a02: val4(s[i + 8], s[i + 9], s[i + 10], s[i + 11]),
        a10: val4(s[i + 12], s[i + 13], s[i + 14], s[i + 15]),
        a11: val4(s[i + 16], s[i + 17], s[i + 18], s[i + 19]),
        a12: val4(s[i + 20], s[i + 21], s[i + 22], s[i + 23]),
        a20: val4(s[i + 24], s[i + 25], s[i + 26], s[i + 27]),
        a21: val4(s[i + 28], s[i + 29], s[i + 30], s[i + 31]),
        a22: val4(s[i + 32], s[i + 33], s[i + 34], s[i + 35]),
    }
}

/// The device configuration block whose bytes sit at index `i`.
#[verifier::opaque]
pub open spec fn device_config_at(s: Seq<u8>, i: int) -> DeviceConfig {
    DeviceConfig {
        calibration: CalibrationConfig {
            accel_B: vec3_at(s, i),
            accel_Ainv: mat3_at(s, i + 12),
            mag_B: vec3_at(s, i + 48),
            mag_Ainv: mat3_at(s, i + 60),
            gyro_off: vec3_at(s, i + 96),
        },
        device_id: val4i(s[i + 108], s[i + 109], s[i + 110], s[i + 111]),
        device_mode: val4i(s[i + 112], s[i + 113], s[i + 114], s[i + 115]),
    }
}

/// The magic prefix sits at index 1 of a handshake frame.
pub open spec fn has_magic(s: Seq<u8>) -> bool {
    &&& s[1] == 72
    &&& s[2] == 101
    &&& s[3] == 121
    &&& s[4] == 32
    &&& s[5] == 79
    &&& s[6] == 86
    &&& s[7] == 82
    &&& s[8] == 32
    &&& s[9] == 61
    &&& s[10] == 68
    &&& s[11] == 32
}

/// Decoding of a downlink buffer.  `None` when the buffer is empty, the
/// outer discriminant or the handshake magic is wrong, the sub-tag is
/// unrecognized, the payload does not fit, or a boolean byte is neither 0
/// nor 1.  Bytes past the payload are ignored.
pub open spec fn spec_parse(s: Seq<u8>) -> Option<PacketType> {
    if s.len() < 1 {
        None
    } else if s[0] == ids::F_HANDSHAKE {
        if s.len() >= 13 && has_magic(s) {
            Some(PacketType::Handshake(ClientHandshake { version: s[12] }))
        } else {
            None
        }
    } else if s[0] == ids::F_OTHER {
        if s.len() >= 4 && s[1] == 0 {
            let sub = val2(s[2], s[3]);
            if sub == ids::HEARTBEAT {
                if s.len() >= 5 {
                    Some(PacketType::Other(OPacketType::Heartbeat(HeartbeatToClient { extra: s[4] })))
                } else {
                    None
                }
            } else if sub == ids::VIBRATE {
                if s.len() >= 16 {
                    Some(
                        PacketType::Other(
                            OPacketType::Vibrate(
                                VibrateData {
                                    duration_seconds: val4(s[4], s[5], s[6], s[7]),
                                    frequency: val4(s[8], s[9], s[10], s[11]),
                                    amplitude: val4(s[12], s[13], s[14], s[15]),
                                },
                            ),
                        ),
                    )
                } else {
                    None
                }
            } else if sub == ids::COMMAND {
                if s.len() >= 8 {
                    let cmd = val4(s[4], s[5], s[6], s[7]);
                    if cmd == 1 {
                        Some(PacketType::Other(OPacketType::Command(CommandType::Calibrate)))
                    } else if cmd == 2 {
                        Some(PacketType::Other(OPacketType::Command(CommandType::SendConfig)))
                    } else if cmd == 3 {
                        Some(PacketType::Other(OPacketType::Command(CommandType::Blink)))
                    } else {
                        None
                    }
                } else {
                    None
                }
            } else if sub == ids::CONFIG {
                if s.len() >= 120 {
                    Some(PacketType::Other(OPacketType::Config(device_config_at(s, 4))))
                } else {
                    None
                }
            } else if sub == ids::PING {
                if s.len() >= 8 {
                    Some(PacketType::Other(OPacketType::Ping(val4i(s[4], s[5], s[6], s[7]))))
                } else {
                    None
                }
            } else if sub == ids::SENSOR_INFO {
                if s.len() >= 6 && (s[5] == 0 || s[5] == 1) {
                    Some(PacketType::Other(OPacketType::SensorInfo(s[4] as i8, s[5] == 1)))
                } else {
                    None
                }
            } else {
                None
            }
        } else {
            None
        }
    } else {
        None
    }
}

/// The bytes of a matrix: nine big-endian bit patterns, row by row.
pub open spec fn spec_encode_mat3(m: Matrix3x3) -> Seq<u8> {
    be4(m.a00) + be4(m.a01) + be4(m.a02) + be4(m.a10) + be4(m.a11) + be4(m.a12) + be4(m.a20) + be4(
        m.a21,
    ) + be4(m.a22)
}

/// The bytes of a device configuration block.
pub open spec fn spec_encode_config(c: DeviceConfig) -> Seq<u8> {
    spec_encode_vec3(c.calibration.accel_B) + spec_encode_mat3(c.calibration.accel_Ainv)
        + spec_encode_vec3(c.calibration.mag_B) + spec_encode_mat3(c.calibration.mag_Ainv)
        + spec_encode_vec3(c.calibration.gyro_off) + be4i(c.device_id) + be4i(c.device_mode)
}

/// The sub-tag of an "Other" sub-payload.
pub open spec fn subtag_of(o: OPacketType) -> u16 {
    match o {
        OPacketType::Heartbeat(_) => ids::HEARTBEAT,
        OPacketType::Vibrate(_) => ids::VIBRATE,
        OPacketType::Command(_) => ids::COMMAND,
        OPacketType::Config(_) => ids::CONFIG,
        OPacketType::Ping(_) => ids::PING,
        OPacketType::SensorInfo(_, _) => ids::SENSOR_INFO,
    }
}

/// The 4-byte identifier of a command.
pub open spec fn command_id(c: CommandType) -> u32 {
    match c {
        CommandType::Calibrate => 1,
        CommandType::SendConfig => 2,
        CommandType::Blink => 3,
    }
}

/// The sub-payload bytes of an "Other" frame.
pub open spec fn spec_subpayload(o: OPacketType) -> Seq<u8> {
    match o {
        OPacketType::Heartbeat(h) => seq![h.extra],
        OPacketType::Vibrate(v) => be4(v.duration_seconds) + be4(v.frequency) + be4(v.amplitude),
        OPacketType::Command(c) => be4(command_id(c)),
        OPacketType::Config(c) => spec_encode_config(c),
        OPacketType::Ping(e) => be4i(e),
        OPacketType::SensorInfo(sid, notified) => seq![
            sid as u8,
            if notified {
                1u8
            } else {
                0u8
            },
        ],
    }
}

/// The bytes of a downlink packet, with its dual framing.
pub open spec fn spec_encode(p: PacketType) -> Seq<u8> {
    match p {
        PacketType::Handshake(h) => seq![ids::F_HANDSHAKE] + magic_bytes() + seq![h.version],
        PacketType::Other(o) => seq![ids::F_OTHER, 0u8] + be2(subtag_of(o)) + spec_subpayload(o),
    }
}

/// Reads the matrix at index `i`.
pub fn read_mat3(b: &[u8], i: usize) -> (r: Matrix3x3)
    requires
        i + 36 <= b.len(),
    ensures
        r == mat3_at(b@, i as int),
{
    Matrix3x3 {
        a00: read_u32(b, i),
        a01: read_u32(b, i + 4),
        a02: read_u32(b, i + 8),
        a10: read_u32(b, i + 12),
        a11: read_u32(b, i + 16),
        a12: read_u32(b, i + 20),
        a20: read_u32(b, i + 24),
        a21: read_u32(b, i + 28),
        a22: read_u32(b, i + 32),
    }
}

/// Reads the device configuration block at index `i`.
pub fn read_config(b: &[u8], i: usize) -> (r: DeviceConfig)
    requires
        i + 116 <= b.len(),
    ensures
        r == device_config_at(b@, i as int),
{
    proof {
        reveal(device_config_at);
    }
    DeviceConfig {
        calibration: CalibrationConfig {
            accel_B: read_vec3(b, i),
            accel_Ainv: read_mat3(b, i + 12),
            mag_B: read_vec3(b, i + 48),
            mag_Ainv: read_mat3(b, i + 60),
            gyro_off: read_vec3(b, i + 96),
        },
        device_id: read_i32(b, i + 108),
        device_mode: read_i32(b, i + 112),
    }
}

/// Decodes one downlink buffer, as `spec_parse` describes.
pub fn parse_slice(b: &[u8]) -> (r: Option<PacketType>)
    ensures
        r == spec_parse(b@),
{
    let n = b.len();
    if n < 1 {
        return None;
    }
    if b[0] == ids::F_HANDSHAKE {
        if n >= 13 && b[1] == 72 && b[2] == 101 && b[3] == 121 && b[4] == 32 && b[5] == 79 && b[6]
            == 86 && b[7] == 82 && b[8] == 32 && b[9] == 61 && b[10] == 68 && b[11] == 32 {
            Some(PacketType::Handshake(ClientHandshake { version: b[12] }))
        } else {
            None
        }
    } else if b[0] == ids::F_OTHER {
        if n >= 4 && b[1] == 0 {
            let sub = read_u16(b, 2);
            if sub == ids::HEARTBEAT {
                if n >= 5 {
                    Some(PacketType::Other(OPacketType::Heartbeat(HeartbeatToClient { extra: b[4] })))
                } else {
                    None
                }
            } else if sub == ids::VIBRATE {
                if n >= 16 {
                    Some(
                        PacketType::Other(
                            OPacketType::Vibrate(
                                VibrateData {
                                    duration_seconds: read_u32(b, 4),
                                    frequency: read_u32(b, 8),
                                    amplitude: read_u32(b, 12),
                                },
                            ),
                        ),
                    )
                } else {
                    None
                }
            } else if sub == ids::COMMAND {
                if n >= 8 {
                    let cmd = read_u32(b, 4);
                    if cmd == 1 {
                        Some(PacketType::Other(OPacketType::Command(CommandType::Calibrate)))
                    } else if cmd == 2 {
                        Some(PacketType::Other(OPacketType::Command(CommandType::SendConfig)))
                    } else if cmd == 3 {
                        Some(PacketType::Other(OPacketType::Command(CommandType::Blink)))
                    } else {
                        None
                    }
                } else {
                    None
                }
            } else if sub == ids::CONFIG {
                if n >= 120 {
                    Some(PacketType::Other(OPacketType::Config(read_config(b, 4))))
                } else {
                    None
                }
            } else if sub == ids::PING {
                if n >= 8 {
                    Some(PacketType::Other(OPacketType::Ping(read_i32(b, 4))))
                } else {
                    None
                }
            } else if sub == ids::SENSOR_INFO {
                if n >= 6 && (b[5] == 0 || b[5] == 1) {
                    Some(PacketType::Other(OPacketType::SensorInfo(read_i8(b, 4), b[5] == 1)))
                } else {
                    None
                }
            } else {
                None
            }
        } else {
            None
        }
    } else {
        None
    }
}

/// Appends the bytes of a matrix.
pub fn push_mat3(out: &mut Vec<u8>, m: &Matrix3x3)
    ensures
        final(out)@ == old(out)@ + spec_encode_mat3(*m),
{
    push_u32(out, m.a00);
    push_u32(out, m.a01);
    push_u32(out, m.a02);
    push_u32(out, m.a10);
    push_u32(out, m.a11);
    push_u32(out, m.a12);
    push_u32(out, m.a20);
    push_u32(out, m.a21);
    push_u32(out, m.a22);
    assert(out@ =~= old(out)@ + spec_encode_mat3(*m));
}

/// Appends the bytes of a device configuration block.
pub fn push_config(out: &mut Vec<u8>, c: &DeviceConfig)
    ensures
        final(out)@ == old(out)@ + spec_encode_config(*c),
{
    push_vec3(out, &c.calibration.accel_B);
    push_mat3(out, &c.calibration.accel_Ainv);
    push_vec3(out, &c.calibration.mag_B);
    push_mat3(out, &c.calibration.mag_Ainv);
    push_vec3(out, &c.calibration.gyro_off);
    push_i32(out, c.device_id);
    push_i32(out, c.device_mode);
    assert(out@ =~= old(out)@ + spec_encode_config(*c));
}

/// Encodes one downlink packet, the exact inverse of `parse_slice`.
pub fn to_bytes(pk: &PacketType) -> (r: Option<Vec<u8>>)
    ensures
        r matches Some(bytes) && bytes@ == spec_encode(*pk),
{
    let mut out: Vec<u8> = Vec::new();
    match pk {
        PacketType::Handshake(h) => {
            out.push(ids::F_HANDSHAKE);
            out.push(72);
            out.push(101);
            out.push(121);
            out.push(32);
            out.push(79);
            out.push(86);
            out.push(82);
            out.push(32);
            out.push(61);
            out.push(68);
            out.push(32);
            out.push(h.version);
        },
        PacketType::Other(o) => {
            out.push(ids::F_OTHER);
            out.push(0);
            match o {
                OPacketType::Heartbeat(h) => {
                    push_u16(&mut out, ids::HEARTBEAT);
                    out.push(h.extra);
                },
                OPacketType::Vibrate(v) => {
                    push_u16(&mut out, ids::VIBRATE);
                    push_u32(&mut out, v.duration_seconds);
                    push_u32(&mut out, v.frequency);
                    push_u32(&mut out, v.amplitude);
                },
                OPacketType::Command(c) => {
                    push_u16(&mut out, ids::COMMAND);
                    match c {
                        CommandType::Calibrate => push_u32(&mut out, 1),
                        CommandType::SendConfig => push_u32(&mut out, 2),
                        CommandType::Blink => push_u32(&mut out, 3),
                    }
                },
                OPacketType::Config(c) => {
                    push_u16(&mut out, ids::CONFIG);
                    push_config(&mut out, c);
                },
                OPacketType::Ping(e) => {
                    push_u16(&mut out, ids::PING);
                    push_i32(&mut out, *e);
                },
                OPacketType::SensorInfo(sid, notified) => {
                    push_u16(&mut out, ids::SENSOR_INFO);
                    out.push(*sid as u8);
                    if *notified {
                        out.push(1);
                    } else {
                        out.push(0);
                    }
                },
            }
        },
    }
    assert(out@ =~= spec_encode(*pk));
    Some(out)
}

/// A matrix decodes back from its own bytes at index `i`.
proof fn lemma_mat3_at(s: Seq<u8>, i: int, m: Matrix3x3)
    requires
        0 <= i,
        i + 36 <= s.len(),
        forall|k: int| 0 <= k < 36 ==> s[i + k] == spec_encode_mat3(m)[k],
    ensures
        mat3_at(s, i) == m,
{
    let t = spec_encode_mat3(m);
    assert(s[i + 0] == t[0] && s[i + 1] == t[1] && s[i + 2] == t[2] && s[i + 3] == t[3] && s[i + 4]
        == t[4] && s[i + 5] == t[5] && s[i + 6] == t[6] && s[i + 7] == t[7] && s[i + 8] == t[8]
        && s[i + 9] == t[9] && s[i + 10] == t[10] && s[i + 11] == t[11]);
    assert(s[i + 12] == t[12] && s[i + 13] == t[13] && s[i + 14] == t[14] && s[i + 15] == t[15]
        && s[i + 16] == t[16] && s[i + 17] == t[17] && s[i + 18] == t[18] && s[i + 19] == t[19]
        && s[i + 20] == t[20] && s[i + 21] == t[21] && s[i + 22] == t[22] && s[i + 23] == t[23]);
    assert(s[i + 24] == t[24] && s[i + 25] == t[25] && s[i + 26] == t[26] && s[i + 27] == t[27]
        && s[i + 28] == t[28] && s[i + 29] == t[29] && s[i + 30] == t[30] && s[i + 31] == t[31]
        && s[i + 32] == t[32] && s[i + 33] == t[33] && s[i + 34] == t[34] && s[i + 35] == t[35]);
    assert(t[0] == be4(m.a00)[0] && t[1] == be4(m.a00)[1] && t[2] == be4(m.a00)[2] && t[3] == be4(
        m.a00,
    )[3]);
    assert(t[4] == be4(m.a01)[0] && t[5] == be4(m.a01)[1] && t[6] == be4(m.a01)[2] && t[7] == be4(
        m.a01,
    )[3]);
    assert(t[8] == be4(m.a02)[0] && t[9] == be4(m.a02)[1] && t[10] == be4(m.a02)[2] && t[11]
        == be4(m.a02)[3]);
    assert(t[12] == be4(m.a10)[0] && t[13] == be4(m.a10)[1] && t[14] == be4(m.a10)[2] && t[15]
        == be4(m.a10)[3]);
    assert(t[16] == be4(m.a11)[0] && t[17] == be4(m.a11)[1] && t[18] == be4(m.a11)[2] && t[19]
        == be4(m.a11)[3]);
    assert(t[20] == be4(m.a12)[0] && t[21] == be4(m.a12)[1] && t[22] == be4(m.a12)[2] && t[23]
        == be4(m.a12)[3]);
    assert(t[24] == be4(m.a20)[0] && t[25] == be4(m.a20)[1] && t[26] == be4(m.a20)[2] && t[27]
        == be4(m.a20)[3]);
    assert(t[28] == be4(m.a21)[0] && t[29] == be4(m.a21)[1] && t[30] == be4(m.a21)[2] && t[31]
        == be4(m.a21)[3]);
    assert(t[32] == be4(m.a22)[0] && t[33] == be4(m.a22)[1] && t[34] == be4(m.a22)[2] && t[35]
        == be4(m.a22)[3]);
    lemma_val4_be4(m.a00);
    lemma_val4_be4(m.a01);
    lemma_val4_be4(m.a02);
    lemma_val4_be4(m.a10);
    lemma_val4_be4(m.a11);
    lemma_val4_be4(m.a12);
    lemma_val4_be4(m.a20);
    lemma_val4_be4(m.a21);
    lemma_val4_be4(m.a22);
}

/// The frame of an "Other" packet decodes back: outer discriminant, pad
/// byte and sub-tag, with the sub-payload at index 4.
proof fn lemma_other_frame(o: OPacketType)
    ensures
        ({
            let s = spec_encode(PacketType::Other(o));
            &&& s.len() == 4 + spec_subpayload(o).len()
            &&& s[0] == 0
            &&& s[1] == 0
            &&& val2(s[2], s[3]) == subtag_of(o)
            &&& forall|k: int|
                0 <= k < spec_subpayload(o).len() ==> s[4 + k] == spec_subpayload(o)[k]
        }),
{
    let s = spec_encode(PacketType::Other(o));
    let sub = subtag_of(o);
    lemma_val2_be2(sub);
    assert(s[2] == be2(sub)[0] && s[3] == be2(sub)[1]);
}

proof fn lemma_rt_heartbeat(h: HeartbeatToClient)
    ensures
        spec_parse(spec_encode(PacketType::Other(OPacketType::Heartbeat(h)))) == Some(
            PacketType::Other(OPacketType::Heartbeat(h)),
        ),
{
    let o = OPacketType::Heartbeat(h);
    let s = spec_encode(PacketType::Other(o));
    let pl = spec_subpayload(o);
    lemma_other_frame(o);
    assert(s[4 + 0int] == pl[0]);
}

proof fn lemma_rt_vibrate(v: VibrateData)
    ensures
        spec_parse(spec_encode(PacketType::Other(OPacketType::Vibrate(v)))) == Some(
            PacketType::Other(OPacketType::Vibrate(v)),
        ),
{
    let o = OPacketType::Vibrate(v);
    let s = spec_encode(PacketType::Other(o));
    let pl = spec_subpayload(o);
    lemma_other_frame(o);
    assert(s[4 + 0int] == pl[0] && s[4 + 1int] == pl[1] && s[4 + 2int] == pl[2] && s[4 + 3int]
        == pl[3] && s[4 + 4int] == pl[4] && s[4 + 5int] == pl[5] && s[4 + 6int] == pl[6] && s[4
        + 7int] == pl[7] && s[4 + 8int] == pl[8] && s[4 + 9int] == pl[9] && s[4 + 10int] == pl[10]
        && s[4 + 11int] == pl[11]);
    assert(pl[0] == be4(v.duration_seconds)[0] && pl[1] == be4(v.duration_seconds)[1] && pl[2]
        == be4(v.duration_seconds)[2] && pl[3] == be4(v.duration_seconds)[3]);
    assert(pl[4] == be4(v.frequency)[0] && pl[5] == be4(v.frequency)[1] && pl[6] == be4(
        v.frequency,
    )[2] && pl[7] == be4(v.frequency)[3]);
    assert(pl[8] == be4(v.amplitude)[0] && pl[9] == be4(v.amplitude)[1] && pl[10] == be4(
        v.amplitude,
    )[2] && pl[11] == be4(v.amplitude)[3]);
    lemma_val4_be4(v.duration_seconds);
    lemma_val4_be4(v.frequency);
    lemma_val4_be4(v.amplitude);
}

proof fn lemma_rt_command(c: CommandType)
    ensures
        spec_parse(spec_encode(PacketType::Other(OPacketType::Command(c)))) == Some(
            PacketType::Other(OPacketType::Command(c)),
        ),
{
    let o = OPacketType::Command(c);
    let s = spec_encode(PacketType::Other(o));
    let pl = spec_subpayload(o);
    lemma_other_frame(o);
    assert(s[4 + 0int] == pl[0] && s[4 + 1int] == pl[1] && s[4 + 2int] == pl[2] && s[4 + 3int]
        == pl[3]);
    lemma_val4_be4(command_id(c));
    assert(val4(s[4], s[5], s[6], s[7]) == command_id(c));
}

#[verifier::rlimit(100)]
proof fn lemma_rt_config(c: DeviceConfig)
    ensures
        spec_parse(spec_encode(PacketType::Other(OPacketType::Config(c)))) == Some(
            PacketType::Other(OPacketType::Config(c)),
        ),
{
    let o = OPacketType::Config(c);
    let s = spec_encode(PacketType::Other(o));
    lemma_other_frame(o);
    lemma_config_payload(s, c);
}

proof fn lemma_rt_ping(e: PingId)
    ensures
        spec_parse(spec_encode(PacketType::Other(OPacketType::Ping(e)))) == Some(
            PacketType::Other(OPacketType::Ping(e)),
        ),
{
    let o = OPacketType::Ping(e);
    let s = spec_encode(PacketType::Other(o));
    let pl = spec_subpayload(o);
    lemma_other_frame(o);
    assert(s[4 + 0int] == pl[0] && s[4 + 1int] == pl[1] && s[4 + 2int] == pl[2] && s[4 + 3int]
        == pl[3]);
    lemma_val4i_be4i(e);
    assert(val4i(s[4], s[5], s[6], s[7]) == e);
}

proof fn lemma_rt_sensor_info(sid: SensorID, notified: SensorStateNotified)
    ensures
        spec_parse(spec_encode(PacketType::Other(OPacketType::SensorInfo(sid, notified)))) == Some(
            PacketType::Other(OPacketType::SensorInfo(sid, notified)),
        ),
{
    let o = OPacketType::SensorInfo(sid, notified);
    let s = spec_encode(PacketType::Other(o));
    let pl = spec_subpayload(o);
    lemma_other_frame(o);
    assert(s[4 + 0int] == pl[0] && s[4 + 1int] == pl[1]);
    lemma_cast_i8(sid);
}

/// Round-trip law: decoding an encoded downlink packet yields the packet
/// back, for every packet of every defined kind, and the re-encoded bytes
/// therefore equal the original bytes.
pub proof fn lemma_roundtrip(p: PacketType)
    ensures
        spec_parse(spec_encode(p)) == Some(p),
{
    match p {
        PacketType::Handshake(h) => {
            let s = spec_encode(p);
            assert(s.len() == 13);
            assert(s[0] == 3 && s[1] == 72 && s[2] == 101 && s[3] == 121 && s[4] == 32 && s[5]
                == 79 && s[6] == 86 && s[7] == 82 && s[8] == 32 && s[9] == 61 && s[10] == 68 && s[
            11] == 32 && s[12] == h.version);
        },
        PacketType::Other(o) => match o {
            OPacketType::Heartbeat(h) => lemma_rt_heartbeat(h),
            OPacketType::Vibrate(v) => lemma_rt_vibrate(v),
            OPacketType::Command(c) => lemma_rt_command(c),
            OPacketType::Config(c) => lemma_rt_config(c),
            OPacketType::Ping(e) => lemma_rt_ping(e),
            OPacketType::SensorInfo(sid, notified) => lemma_rt_sensor_info(sid, notified),
        },
    }
}

/// A device configuration block decodes back from its own frame.
#[verifier::rlimit(100)]
proof fn lemma_config_payload(s: Seq<u8>, c: DeviceConfig)
    requires
        s == spec_encode(PacketType::Other(OPacketType::Config(c))),
    ensures
        device_config_at(s, 4) == c,
{
    reveal(device_config_at);
    let pl = spec_subpayload(OPacketType::Config(c));
    assert(s.len() == 4 + pl.len());
    assert(forall|k: int| 0 <= k < pl.len() ==> s[4 + k] == pl[k]);
    let v1 = spec_encode_vec3(c.calibration.accel_B);
    let m1 = spec_encode_mat3(c.calibration.accel_Ainv);
    let v2 = spec_encode_vec3(c.calibration.mag_B);
    let m2 = spec_encode_mat3(c.calibration.mag_Ainv);
    let v3 = spec_encode_vec3(c.calibration.gyro_off);
    assert(forall|k: int| 0 <= k < 12 ==> s[4 + k] == v1[k]) by {
        assert forall|k: int| 0 <= k < 12 implies s[4 + k] == v1[k] by {
            assert(s[4 + k] == pl[k]);
            assert(pl[k] == v1[k]);
        };
    };
    lemma_vec3_at(s, 4, c.calibration.accel_B);
    assert(forall|k: int| 0 <= k < 36 ==> s[16 + k] == m1[k]) by {
        assert forall|k: int| 0 <= k < 36 implies s[16 + k] == m1[k] by {
            assert(s[4 + (12 + k)] == pl[12 + k]);
            assert(pl[12 + k] == m1[k]);
        };
    };
    lemma_mat3_at(s, 16, c.calibration.accel_Ainv);
    assert(forall|k: int| 0 <= k < 12 ==> s[52 + k] == v2[k]) by {
        assert forall|k: int| 0 <= k < 12 implies s[52 + k] == v2[k] by {
            assert(s[4 + (48 + k)] == pl[48 + k]);
            assert(pl[48 + k] == v2[k]);
        };
    };
    lemma_vec3_at(s, 52, c.calibration.mag_B);
    assert(forall|k: int| 0 <= k < 36 ==> s[64 + k] == m2[k]) by {
        assert forall|k: int| 0 <= k < 36 implies s[64 + k] == m2[k] by {
            assert(s[4 + (60 + k)] == pl[60 + k]);
            assert(pl[60 + k] == m2[k]);
        };
    };
    lemma_mat3_at(s, 64, c.calibration.mag_Ainv);
    assert(forall|k: int| 0 <= k < 12 ==> s[100 + k] == v3[k]) by {
        assert forall|k: int| 0 <= k < 12 implies s[100 + k] == v3[k] by {
            assert(s[4 + (96 + k)] == pl[96 + k]);
            assert(pl[96 + k] == v3[k]);
        };
    };
    lemma_vec3_at(s, 100, c.calibration.gyro_off);
    assert(s[4 + 108int] == pl[108] && s[4 + 109int] == pl[109] && s[4 + 110int] == pl[110] && s[4
        + 111int] == pl[111] && s[4 + 112int] == pl[112] && s[4 + 113int] == pl[113] && s[4
        + 114int] == pl[114] && s[4 + 115int] == pl[115]);
    assert(pl[108] == be4i(c.device_id)[0] && pl[109] == be4i(c.device_id)[1] && pl[110] == be4i(
        c.device_id,
    )[2] && pl[111] == be4i(c.device_id)[3]);
    assert(pl[112] == be4i(c.device_mode)[0] && pl[113] == be4i(c.device_mode)[1] && pl[114]
        == be4i(c.device_mode)[2] && pl[115] == be4i(c.device_mode)[3]);
    lemma_val4i_be4i(c.device_id);
    lemma_val4i_be4i(c.device_mode);
    assert(val4i(s[112], s[113], s[114], s[115]) == c.device_id);
    assert(val4i(s[116], s[117], s[118], s[119]) == c.device_mode);
}

} // verus!
