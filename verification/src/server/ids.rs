//! Packet-type tags of the device-to-hub grammar: a 4-byte unsigned
//! big-endian value at the start of every uplink packet.

use vstd::prelude::*;

verus! {

pub const HEARTBEAT: u32 = 0;

pub const ROTATION: u32 = 1;

pub const GYROSCOPE: u32 = 2;

pub const HANDSHAKE: u32 = 3;

pub const ACCELEROMETER: u32 = 4;

pub const MAGNETOMETER: u32 = 5;

pub const RAW_CALIBRATION_DATA: u32 = 6;

pub const GYRO_CALIBRATION_DATA: u32 = 7;

pub const CONFIG: u32 = 8;

pub const RAW_MAGNETOMETER: u32 = 9;

pub const PING: u32 = 10;

pub const SERIAL: u32 = 11;

pub const BATTERY: u32 = 12;

pub const TAP: u32 = 13;

pub const RESET_REASON: u32 = 14;

pub const SENSOR_INFO: u32 = 15;

pub const ROTATION_2: u32 = 16;

pub const ROTATION_DATA: u32 = 17;

pub const MAGNETOMETER_ACCURACY: u32 = 18;

} // verus!
