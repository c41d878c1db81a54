//! Data carried by the wire protocol.
//!
//! Orientation samples arrive on the wire as IEEE-754 single-precision
//! floats.  This crate does not interpret them: every such field is kept as
//! the 32-bit big-endian bit pattern read from (or written to) the wire, so
//! the codec and the session layer stay exact and the downstream fusion math
//! (out of scope here) can reinterpret the bits.

use vstd::prelude::*;
use vstd::string::StringExecFns;

verus! {

/// Identifies one sensor channel on a multi-sensor device.
pub type SensorID = i8;

/// Sequence number carried on nearly every device-to-hub packet.
pub type PacketID = u64;

/// Echo identifier of a ping packet.
pub type PingId = i32;

/// Whether a device has been told the state of one of its sensors.
pub type SensorStateNotified = bool;

/// MAC-like 6-byte peer identity.  Equality is byte-exact; the all-zero
/// value is the sentinel for "unknown / unassigned".
#[derive(Clone, Copy, PartialEq, Eq, Structural, Debug)]
pub struct MacAddress(pub u8, pub u8, pub u8, pub u8, pub u8, pub u8);

/// A 3-vector of IEEE-754 single-precision bit patterns.
#[derive(Clone, Copy, PartialEq, Eq, Structural, Debug)]
pub struct Vector {
    pub x: u32,
    pub y: u32,
    pub z: u32,
}

/// An orientation quaternion of IEEE-754 single-precision bit patterns.
#[derive(Clone, Copy, PartialEq, Eq, Structural, Debug)]
pub struct Quaternion {
    pub x: u32,
    pub y: u32,
    pub z: u32,
    pub w: u32,
}

/// A 3x3 matrix of IEEE-754 single-precision bit patterns.
#[derive(Clone, Copy, PartialEq, Eq, Structural, Debug)]
pub struct Matrix3x3 {
    pub a00: u32,
    pub a01: u32,
    pub a02: u32,
    pub a10: u32,
    pub a11: u32,
    pub a12: u32,
    pub a20: u32,
    pub a21: u32,
    pub a22: u32,
}

/// The IMU sub-info triple of a handshake.
#[derive(Clone, Copy, PartialEq, Eq, Structural, Debug)]
pub struct ImuInfo(pub i32, pub i32, pub i32);

/// A length-prefixed string: one unsigned length byte, then exactly that
/// many raw bytes.  Not null-terminated.
#[derive(Clone, PartialEq, Eq, Debug)]
pub struct StringWithLength {
    data: Vec<u8>,
}

impl View for StringWithLength {
    type V = Seq<u8>;

    closed spec fn view(&self) -> Seq<u8> {
        self.data@
    }
}

impl StringWithLength {
    /// A length-prefixed string is well formed when its payload fits the
    /// one-byte length prefix.
    pub open spec fn wf(&self) -> bool {
        self@.len() <= 255
    }

    /// Wraps raw bytes; fails when they do not fit the one-byte length
    /// prefix.
    pub fn new(data: Vec<u8>) -> (r: Option<StringWithLength>)
        ensures
            data@.len() <= 255 ==> (r matches Some(s) && s@ == data@ && s.wf()),
            data@.len() > 255 ==> r is None,
    {
        if data.len() <= 255 {
            Some(StringWithLength { data })
        } else {
            None
        }
    }

    /// The raw payload bytes.
    pub fn bytes(&self) -> (r: &Vec<u8>)
        ensures
            r@ == self@,
    {
        &self.data
    }

    /// The payload length.
    pub fn len(&self) -> (r: usize)
        ensures
            r == self@.len(),
    {
        self.data.len()
    }

    /// The payload decoded as text.  The protocol's strings are plain
    /// ASCII, so each byte is one character.
    pub fn to_string(&self) -> (r: String)
        requires
            ascii_bytes(self@),
        ensures
            r@ == chars_of_bytes(self@),
    {
        bytes_to_ascii_string(&self.data)
    }
}

impl Default for StringWithLength {
    /// The empty string.
    fn default() -> (r: StringWithLength)
        ensures
            r@ == Seq::<u8>::empty(),
            r.wf(),
    {
        StringWithLength { data: Vec::new() }
    }
}

/// All bytes are ASCII.
pub open spec fn ascii_bytes(s: Seq<u8>) -> bool {
    forall|i: int| 0 <= i < s.len() ==> s[i] < 0x80
}

/// The characters with the same code points as the bytes.
pub open spec fn chars_of_bytes(s: Seq<u8>) -> Seq<char> {
    s.map_values(|b: u8| b as char)
}

/// Relies on `String::from_utf8`: ASCII bytes are valid UTF-8 and decode to
/// the characters with the same code points.
#[verifier::external_body]
fn bytes_to_ascii_string(b: &Vec<u8>) -> (r: String)
    requires
        ascii_bytes(b@),
    ensures
        r@ == chars_of_bytes(b@),
{
    String::from_utf8(b.clone()).unwrap_or_default()
}

/// The bytes of the default firmware name, `owoTrack`.
pub open spec fn default_firmware_bytes() -> Seq<u8> {
    seq![111u8, 119u8, 111u8, 84u8, 114u8, 97u8, 99u8, 107u8]
}

/// The firmware name string of a handshake.
#[derive(Clone, PartialEq, Eq, Debug)]
pub struct FirmwareString(pub StringWithLength);

impl FirmwareString {
    pub open spec fn wf(&self) -> bool {
        self.0.wf()
    }

    /// The firmware name as text.
    pub fn to_string(&self) -> (r: String)
        requires
            ascii_bytes(self.0@),
        ensures
            r@ == chars_of_bytes(self.0@),
    {
        self.0.to_string()
    }
}

impl Default for FirmwareString {
    /// Older firmware that sends no name is reported as `owoTrack`.
    fn default() -> (r: FirmwareString)
        ensures
            r.0@ == default_firmware_bytes(),
            r.wf(),
    {
        let mut data: Vec<u8> = Vec::new();
        data.push(111);
        data.push(119);
        data.push(111);
        data.push(84);
        data.push(114);
        data.push(97);
        data.push(99);
        data.push(107);
        assert(data@ =~= default_firmware_bytes());
        FirmwareString(StringWithLength { data })
    }
}

/// The handshake payload.  Every field past the first three is conditionally
/// present on the wire; missing fields take fixed defaults (see the decoder).
#[derive(Clone, PartialEq, Eq, Debug)]
pub struct HandshakeData {
    pub board_type: i32,
    pub imu_type: i32,
    pub mcu_type: i32,
    pub imu_info: ImuInfo,
    pub firmware_build: i32,
    pub firmware: FirmwareString,
    pub mac_address: MacAddress,
}

impl HandshakeData {
    pub open spec fn wf(&self) -> bool {
        self.firmware.wf()
    }
}

/// The mathematical view of a handshake payload: plain fields, with the
/// firmware name as its byte sequence.
pub struct HandshakeView {
    pub board_type: i32,
    pub imu_type: i32,
    pub mcu_type: i32,
    pub imu_info: ImuInfo,
    pub firmware_build: i32,
    pub firmware: Seq<u8>,
    pub mac_address: MacAddress,
}

impl HandshakeView {
    pub open spec fn wf(&self) -> bool {
        self.firmware.len() <= 255
    }
}

impl View for FirmwareString {
    type V = Seq<u8>;

    open spec fn view(&self) -> Seq<u8> {
        self.0@
    }
}

impl View for HandshakeData {
    type V = HandshakeView;

    open spec fn view(&self) -> HandshakeView {
        HandshakeView {
            board_type: self.board_type,
            imu_type: self.imu_type,
            mcu_type: self.mcu_type,
            imu_info: self.imu_info,
            firmware_build: self.firmware_build,
            firmware: self.firmware@,
            mac_address: self.mac_address,
        }
    }
}

/// Six raw calibration values.
#[derive(Clone, Copy, PartialEq, Eq, Structural, Debug)]
pub struct RawCalibrationData(pub i32, pub i32, pub i32, pub i32, pub i32, pub i32);

/// Gyroscope calibration as three IEEE-754 single-precision bit patterns.
#[derive(Clone, Copy, PartialEq, Eq, Structural, Debug)]
pub struct GyroCalibrationData(pub u32, pub u32, pub u32);

/// One reserved configuration byte.
#[derive(Clone, Copy, PartialEq, Eq, Structural, Debug)]
pub struct ConfigurationData(pub u8);

/// A serial-console line sent by a device.
#[derive(Clone, PartialEq, Eq, Debug)]
pub struct SerialData(pub StringWithLength);

impl SerialData {
    pub open spec fn wf(&self) -> bool {
        self.0.wf()
    }
}

impl View for SerialData {
    type V = Seq<u8>;

    open spec fn view(&self) -> Seq<u8> {
        self.0@
    }
}

/// Battery level as an IEEE-754 single-precision bit pattern.
#[derive(Clone, Copy, PartialEq, Eq, Structural, Debug)]
pub struct BatteryData(pub u32);

/// One byte of tap-detection data.
#[derive(Clone, Copy, PartialEq, Eq, Structural, Debug)]
pub struct TapData(pub i8);

/// The reason a device reset, as one signed byte.
#[derive(Clone, Copy, PartialEq, Eq, Structural, Debug)]
pub struct ResetReasonData(pub i8);

/// The status byte of one sensor.
#[derive(Clone, Copy, PartialEq, Eq, Structural, Debug)]
pub struct SensorInfoData {
    pub status: i8,
}

/// Magnetometer accuracy as an IEEE-754 single-precision bit pattern.
#[derive(Clone, Copy, PartialEq, Eq, Structural, Debug)]
pub struct MagnetometerAccuracyData(pub u32);

/// One byte of calibration info attached to a rotation sample.
#[derive(Clone, Copy, PartialEq, Eq, Structural, Debug)]
pub struct CalibrationInfo(pub i8);

/// Accelerometer, magnetometer and gyroscope calibration of a device.
#[derive(Clone, Copy, PartialEq, Eq, Structural, Debug)]
#[allow(non_snake_case)]
pub struct CalibrationConfig {
    pub accel_B: Vector,
    pub accel_Ainv: Matrix3x3,
    pub mag_B: Vector,
    pub mag_Ainv: Matrix3x3,
    pub gyro_off: Vector,
}

/// A device configuration block pushed by the hub.
#[derive(Clone, Copy, PartialEq, Eq, Structural, Debug)]
pub struct DeviceConfig {
    pub calibration: CalibrationConfig,
    pub device_id: i32,
    pub device_mode: i32,
}

impl Default for ImuInfo {
    fn default() -> (r: ImuInfo)
        ensures
            r == ImuInfo(0, 0, 0),
    {
        ImuInfo(0, 0, 0)
    }
}

impl Default for MacAddress {
    fn default() -> (r: MacAddress)
        ensures
            r == MacAddress(0, 0, 0, 0, 0, 0),
    {
        MacAddress(0, 0, 0, 0, 0, 0)
    }
}

/// The character for one hex digit, upper case.
pub open spec fn hex_digit(n: u8) -> char {
    if n == 0 {
        '0'
    } else if n == 1 {
        '1'
    } else if n == 2 {
        '2'
    } else if n == 3 {
        '3'
    } else if n == 4 {
        '4'
    } else if n == 5 {
        '5'
    } else if n == 6 {
        '6'
    } else if n == 7 {
        '7'
    } else if n == 8 {
        '8'
    } else if n == 9 {
        '9'
    } else if n == 10 {
        'A'
    } else if n == 11 {
        'B'
    } else if n == 12 {
        'C'
    } else if n == 13 {
        'D'
    } else if n == 14 {
        'E'
    } else {
        'F'
    }
}

/// The two hex digits of one byte.
pub open spec fn byte_hex(b: u8) -> Seq<char> {
    seq![hex_digit(b >> 4), hex_digit(b & 0xf)]
}

/// The display form of an identity: colon-separated uppercase hex.
pub open spec fn mac_chars(m: MacAddress) -> Seq<char> {
    byte_hex(m.0) + seq![':'] + byte_hex(m.1) + seq![':'] + byte_hex(m.2) + seq![':'] + byte_hex(
        m.3,
    ) + seq![':'] + byte_hex(m.4) + seq![':'] + byte_hex(m.5)
}

fn append_hex_digit(s: &mut String, n: u8)
    requires
        n < 16,
    ensures
        final(s)@ == old(s)@ + seq![hex_digit(n)],
{
    proof {
        reveal_strlit("0");
        reveal_strlit("1");
        reveal_strlit("2");
        reveal_strlit("3");
        reveal_strlit("4");
        reveal_strlit("5");
        reveal_strlit("6");
        reveal_strlit("7");
        reveal_strlit("8");
        reveal_strlit("9");
        reveal_strlit("A");
        reveal_strlit("B");
        reveal_strlit("C");
        reveal_strlit("D");
        reveal_strlit("E");
        reveal_strlit("F");
    }
    if n == 0 {
        s.append("0");
    } else if n == 1 {
        s.append("1");
    } else if n == 2 {
        s.append("2");
    } else if n == 3 {
        s.append("3");
    } else if n == 4 {
        s.append("4");
    } else if n == 5 {
        s.append("5");
    } else if n == 6 {
        s.append("6");
    } else if n == 7 {
        s.append("7");
    } else if n == 8 {
        s.append("8");
    } else if n == 9 {
        s.append("9");
    } else if n == 10 {
        s.append("A");
    } else if n == 11 {
        s.append("B");
    } else if n == 12 {
        s.append("C");
    } else if n == 13 {
        s.append("D");
    } else if n == 14 {
        s.append("E");
    } else {
        s.append("F");
    }
}

fn append_byte_hex(s: &mut String, b: u8)
    ensures
        final(s)@ == old(s)@ + byte_hex(b),
{
    assert(b >> 4 < 16 && b & 0xf < 16) by (bit_vector);
    append_hex_digit(s, b >> 4);
    append_hex_digit(s, b & 0xf);
    assert(s@ =~= old(s)@ + byte_hex(b));
}

fn append_colon(s: &mut String)
    ensures
        final(s)@ == old(s)@ + seq![':'],
{
    proof {
        reveal_strlit(":");
    }
    s.append(":");
}

impl MacAddress {
    /// The display form: colon-separated uppercase hex, such as
    /// `10:20:30:FF:EE:DA`.
    pub fn to_string(&self) -> (r: String)
        ensures
            r@ == mac_chars(*self),
    {
        let mut s = String::new();
        append_byte_hex(&mut s, self.0);
        append_colon(&mut s);
        append_byte_hex(&mut s, self.1);
        append_colon(&mut s);
        append_byte_hex(&mut s, self.2);
        append_colon(&mut s);
        append_byte_hex(&mut s, self.3);
        append_colon(&mut s);
        append_byte_hex(&mut s, self.4);
        append_colon(&mut s);
        append_byte_hex(&mut s, self.5);
        assert(s@ =~= mac_chars(*self));
        s
    }
}

} // verus!
