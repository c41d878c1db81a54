//! Plain-value model of transport addresses.
//!
//! The session layer never opens sockets; it reasons about peers by their
//! address octets and port, handed in by the code that owns the transport.
//! This also carries the pseudo-identity derivation: when a device cannot
//! supply an identity, one is derived deterministically from its address, so
//! the same address always yields the same identity.

use vstd::prelude::*;

use crate::types::{HandshakeData, MacAddress};

verus! {

/// The address octets of a peer, IPv4 or IPv6.
#[derive(Clone, Copy, PartialEq, Eq, Structural, Debug)]
pub enum IpOctets {
    V4(u8, u8, u8, u8),
    V6(
        u8,
        u8,
        u8,
        u8,
        u8,
        u8,
        u8,
        u8,
        u8,
        u8,
        u8,
        u8,
        u8,
        u8,
        u8,
        u8,
    ),
}

/// A transport address: address octets plus port.
#[derive(Clone, Copy, PartialEq, Eq, Structural, Debug)]
pub struct SockAddr {
    pub ip: IpOctets,
    pub port: u16,
}

/// The pseudo-identity of an address: for IPv4 the four address octets then
/// two zero bytes; for IPv6 the first six address octets.
pub open spec fn pseudomac(a: SockAddr) -> MacAddress {
    match a.ip {
        IpOctets::V4(o0, o1, o2, o3) => MacAddress(o0, o1, o2, o3, 0, 0),
        IpOctets::V6(o0, o1, o2, o3, o4, o5, _, _, _, _, _, _, _, _, _, _) => MacAddress(
            o0,
            o1,
            o2,
            o3,
            o4,
            o5,
        ),
    }
}

/// Derives a pseudo-identity from an address.  Pure: the same address
/// always yields the same identity, regardless of call count or ordering.
pub fn gen_pseudomac(addr: &SockAddr) -> (r: MacAddress)
    ensures
        r == pseudomac(*addr),
{
    match addr.ip {
        IpOctets::V4(o0, o1, o2, o3) => MacAddress(o0, o1, o2, o3, 0, 0),
        IpOctets::V6(o0, o1, o2, o3, o4, o5, _, _, _, _, _, _, _, _, _, _) => MacAddress(
            o0,
            o1,
            o2,
            o3,
            o4,
            o5,
        ),
    }
}

/// The identity a handshake settles on: the device-reported one, or the
/// address-derived pseudo-identity when the report is the all-zero sentinel.
pub open spec fn effective_mac(reported: MacAddress, addr: SockAddr) -> MacAddress {
    if reported == MacAddress(0, 0, 0, 0, 0, 0) {
        pseudomac(addr)
    } else {
        reported
    }
}

/// Replaces an all-zero (unknown) identity in a handshake with the
/// address-derived pseudo-identity; a reported identity is kept.
pub fn ensure_pseudomac(data: &mut HandshakeData, addr: &SockAddr)
    ensures
        final(data).mac_address == effective_mac(old(data).mac_address, *addr),
        final(data).board_type == old(data).board_type,
        final(data).imu_type == old(data).imu_type,
        final(data).mcu_type == old(data).mcu_type,
        final(data).imu_info == old(data).imu_info,
        final(data).firmware_build == old(data).firmware_build,
        final(data).firmware == old(data).firmware,
{
    if data.mac_address == MacAddress(0, 0, 0, 0, 0, 0) {
        data.mac_address = gen_pseudomac(addr);
    }
}

} // verus!
