//! Session-layer tests: identity derivation, session creation, liveness,
//! and an end-to-end exchange over a synthetic transport.

use owotrack::backends::{BDataInsertionFailure, BackendData, BackendType, UdpClient};
use owotrack::listener::{RemoteMap, UdpServer};
use owotrack::net::{gen_pseudomac, IpOctets, SockAddr};
use owotrack::remote_client::{RemoteClient, RemoteClientWrapper};
use owotrack::server;
use owotrack::types::{MacAddress, Quaternion, StringWithLength};

fn v4(a: u8, b: u8, c: u8, d: u8, port: u16) -> SockAddr {
    SockAddr { ip: IpOctets::V4(a, b, c, d), port }
}

fn put_u32(buf: &mut Vec<u8>, v: u32) {
    buf.extend_from_slice(&v.to_be_bytes());
}

fn put_u64(buf: &mut Vec<u8>, v: u64) {
    buf.extend_from_slice(&v.to_be_bytes());
}

fn put_i32(buf: &mut Vec<u8>, v: i32) {
    buf.extend_from_slice(&v.to_be_bytes());
}

/// A full-length uplink handshake with an all-zero reported identity.
fn handshake_bytes() -> Vec<u8> {
    let mut buf: Vec<u8> = Vec::new();
    put_u32(&mut buf, server::ids::HANDSHAKE);
    put_u64(&mut buf, 0u64);
    for _ in 0..7 {
        put_i32(&mut buf, 0i32);
    }
    buf.push(0); // empty firmware name
    for _ in 0..6 {
        buf.push(0); // all-zero identity: derive from the address
    }
    buf
}

#[test]
fn test_pseudomac_derivation() {
    let addr = v4(10, 20, 30, 255, 6969);
    let mac = gen_pseudomac(&addr);
    assert_eq!(mac, MacAddress(10, 20, 30, 255, 0, 0));

    // Deterministic: the same address always yields the same identity.
    let mac2 = gen_pseudomac(&addr);
    assert_eq!(mac, mac2);

    let v6 = SockAddr {
        ip: IpOctets::V6(1, 2, 3, 4, 5, 6, 7, 8, 9, 10, 11, 12, 13, 14, 15, 16),
        port: 1,
    };
    assert_eq!(gen_pseudomac(&v6), MacAddress(1, 2, 3, 4, 5, 6));
}

#[test]
fn test_mac_display() {
    let mac = MacAddress(0x10, 0x20, 0x30, 0xFF, 0xEE, 0xDA);
    assert_eq!(mac.to_string(), "10:20:30:FF:EE:DA");
    assert_eq!(MacAddress(0, 0, 0, 0, 0, 0).to_string(), "00:00:00:00:00:00");
}

#[test]
fn test_string_with_length_bounds() {
    let ok = StringWithLength::new(vec![b'a'; 255]);
    assert!(ok.is_some());
    let too_long = StringWithLength::new(vec![b'a'; 256]);
    assert!(too_long.is_none());
}

#[test]
fn test_constructoring() {
    let local = v4(0, 0, 0, 0, 16000);
    let srv = UdpServer::new(local);

    assert_eq!(srv.addr_count(), 0);
    assert_eq!(srv.local_addr(), local);

    let map = RemoteMap::new();
    assert_eq!(map.len(), 0);
}

#[test]
fn test_connecting_to_server() {
    let local = v4(0, 0, 0, 0, 16001);
    let mut srv = UdpServer::new(local);
    let mut map = RemoteMap::new();

    let addr = v4(127, 0, 0, 3, 50182);
    srv.connect_to_server(addr, 0, &mut map);

    assert_eq!(srv.addr_count(), 1, "An address to mac mapping should exist upon attempt to connect");
    assert_eq!(map.len(), 1, "The remote map should contain a single client upon attempt to connect");

    let mac = map.key_at(0);
    assert_eq!(mac, gen_pseudomac(&addr), "The session should be keyed by the derived pseudo-identity");

    let remote_server = match map.wrapper_at(0) {
        RemoteClientWrapper::Client(_) => {
            panic!("Tried to connect to server, but UDP has given us client instead..")
        }
        RemoteClientWrapper::Server(w) => w,
    };

    let outgoing = map.wrapper_at(0).outgoing_packets();
    assert_eq!(outgoing.len(), 1, "An outgoing handshake packet should be present");

    let pkt = server::parse_slice(&outgoing[0]).unwrap();
    match pkt {
        server::PacketType::Handshake(_, _) => {}
        _ => {
            panic!("First outgoing packet was not a handshake packet")
        }
    }

    let _ = remote_server;
    match map.wrapper_at(0).find_entry(&BackendType::Udp(local)) {
        Some(BackendData::Udp(udp)) => {
            assert_eq!(udp.srv_addr, local, "The server address of the UdpClient should match the true server address");
            assert_eq!(udp.last_addr, addr, "The address of the client should match its true address.");
        }
        None => panic!("Backend data should exist in new UDP client"),
    }

    let udp2 = srv.get_udp_client(map.wrapper_at(0)).expect(
        "UDPServer should be able to find the UdpClient",
    );
    assert_eq!(udp2.srv_addr, local);
    assert_eq!(udp2.last_addr, addr);
}

#[test]
fn test_connect_twice_single_session() {
    let local = v4(0, 0, 0, 0, 16010);
    let mut srv = UdpServer::new(local);
    let mut map = RemoteMap::new();

    let addr = v4(127, 0, 0, 9, 41000);
    srv.connect_to_server(addr, 0, &mut map);
    assert_eq!(map.len(), 1);
    srv.connect_to_server(addr, 5, &mut map);
    assert_eq!(map.len(), 1, "Connecting again to the same address must not create a second session");
}

#[test]
fn test_handshake_creates_one_session() {
    let local = v4(0, 0, 0, 0, 16020);
    let mut srv = UdpServer::new(local);
    let mut map = RemoteMap::new();

    let addr = v4(192, 168, 1, 7, 40000);
    let buf = handshake_bytes();

    srv.receive_packet(&buf, addr, 100, &mut map);
    assert_eq!(map.len(), 1);
    assert_eq!(map.key_at(0), gen_pseudomac(&addr));

    match map.wrapper_at(0) {
        RemoteClientWrapper::Client(_) => {}
        RemoteClientWrapper::Server(_) => panic!("a handshake must create a device-facing session"),
    }

    // The session owes the device a version-handshake reply.
    let outgoing = map.wrapper_at(0).outgoing_packets();
    assert_eq!(outgoing.len(), 1);
    match owotrack::client::parse_slice(&outgoing[0]).unwrap() {
        owotrack::client::PacketType::Handshake(h) => assert_eq!(h.version, '5' as u8),
        _ => panic!("the reply must be a downlink handshake"),
    }

    // A retransmitted handshake refreshes the session, never duplicates it.
    srv.receive_packet(&buf, addr, 200, &mut map);
    assert_eq!(map.len(), 1);
}

#[test]
fn test_legacy_handshake_skipped() {
    let local = v4(0, 0, 0, 0, 16030);
    let mut srv = UdpServer::new(local);
    let mut map = RemoteMap::new();

    // Only tag and sequence number: the out-of-date 12-byte handshake.
    let mut buf: Vec<u8> = Vec::new();
    put_u32(&mut buf, server::ids::HANDSHAKE);
    put_u64(&mut buf, 0u64);

    srv.receive_packet(&buf, v4(10, 0, 0, 1, 100), 0, &mut map);
    assert_eq!(map.len(), 0, "A 12-byte legacy handshake must not create a session");
    assert_eq!(srv.addr_count(), 0);
}

#[test]
fn test_unknown_address_discarded() {
    let local = v4(0, 0, 0, 0, 16040);
    let mut srv = UdpServer::new(local);
    let mut map = RemoteMap::new();

    // A rotation packet from an address with no handshake on record.
    let mut buf: Vec<u8> = Vec::new();
    put_u32(&mut buf, server::ids::ROTATION);
    put_u64(&mut buf, 1u64);
    for _ in 0..4 {
        put_u32(&mut buf, 0x3f800000);
    }

    srv.receive_packet(&buf, v4(10, 0, 0, 2, 200), 0, &mut map);
    assert_eq!(map.len(), 0, "A non-handshake datagram from an unknown address is silently discarded");
}

#[test]
fn test_self_connection() {
    let cli_addr = v4(127, 0, 0, 1, 16002);
    let srv_addr = v4(127, 0, 0, 1, 16003);
    let mut client_srv = UdpServer::new(cli_addr);
    let mut client_map = RemoteMap::new();

    let mut server_srv = UdpServer::new(srv_addr);
    let mut server_map = RemoteMap::new();

    client_srv.connect_to_server(srv_addr, 0, &mut client_map);

    let pkts = client_srv.collect_outgoing(&client_map);
    assert_eq!(pkts.len(), 1, "Only 1 handshake packet should be sent at this point");
    assert_eq!(pkts[0].0, srv_addr);

    server_srv.receive_packet(&pkts[0].1, cli_addr, 0, &mut server_map);

    assert_eq!(server_map.len(), 1, "Connecting from local client to local server should succeed");
    match server_map.wrapper_at(0) {
        RemoteClientWrapper::Client(_) => {}
        RemoteClientWrapper::Server(_) => {
            panic!("A Client should've connected, but got a non-client")
        }
    }
}

#[test]
fn test_self_connection_send_rotation() {
    let cli_addr = v4(127, 0, 0, 1, 16004);
    let srv_addr = v4(127, 0, 0, 1, 16005);
    let mut client_srv = UdpServer::new(cli_addr);
    let mut client_map = RemoteMap::new();

    let mut server_srv = UdpServer::new(srv_addr);
    let mut server_map = RemoteMap::new();

    client_srv.connect_to_server(srv_addr, 0, &mut client_map);

    let pkts = client_srv.collect_outgoing(&client_map);
    assert_eq!(pkts.len(), 1, "Only 1 handshake packet should be sent at this point");

    server_srv.receive_packet(&pkts[0].1, cli_addr, 0, &mut server_map);
    assert_eq!(server_map.len(), 1, "Connecting from local client to local server should succeed");

    // The session's sensor map stays empty until a rotation arrives.
    match server_map.wrapper_at(0) {
        RemoteClientWrapper::Client(c) => {
            assert_eq!(c.get_tracker().sensors_len(), 0);
        }
        RemoteClientWrapper::Server(_) => panic!("expected a device-facing session"),
    }

    for i in 0..16u64 {
        let tgt_quat = Quaternion {
            x: (0.2 + (i as f32) / 32.0).to_bits(),
            y: (0.333 - (i as f32) / 32.0).to_bits(),
            z: (0.31415926 + (i as f32) / 32.0).to_bits(),
            w: (1.5837 - (i as f32) / 32.0).to_bits(),
        };

        client_map.clear_all_outgoing();

        let mac = client_map.key_at(0);
        let rotation = server::PacketType::Rotation(128 + i, tgt_quat);
        let bytes = server::to_bytes(&rotation).unwrap();
        assert!(client_map.queue_packet_for(&mac, bytes));

        let pkts = client_srv.collect_outgoing(&client_map);
        assert_eq!(pkts.len(), 1, "Only 1 rotation packet should be sent at this point");

        server_srv.receive_packet(&pkts[0].1, cli_addr, i, &mut server_map);

        match server_map.wrapper_at(0) {
            RemoteClientWrapper::Client(c) => {
                let tracker = c.get_tracker();
                assert_eq!(
                    tracker.sensors_len(),
                    1,
                    "A single default sensor should exist after 1 rotation packet"
                );

                let (_id, sensor) = tracker.sensor_at(0);
                assert_eq!(
                    sensor.last_quat, tgt_quat,
                    "The received sensor's rotation quat should match the one sent"
                );
            }
            RemoteClientWrapper::Server(_) => {
                panic!("A Client should've connected, but got a non-client")
            }
        }
    }
}

#[test]
fn test_client_alive() {
    let alive_client = UdpClient {
        srv_addr: v4(0, 0, 0, 0, 1001),
        last_addr: v4(0, 0, 0, 0, 1002),
        last_activity: 20000 - 100,
    };

    assert!(alive_client.is_alive(20000), "Client with recent activity should be alive");
}

#[test]
fn test_client_dead() {
    let alive_client = UdpClient {
        srv_addr: v4(0, 0, 0, 0, 1001),
        last_addr: v4(0, 0, 0, 0, 1002),
        last_activity: 0,
    };

    assert!(!alive_client.is_alive(20000), "Client with no recent activity should be dead");
}

#[test]
fn test_liveness_boundary() {
    let c = UdpClient {
        srv_addr: v4(0, 0, 0, 0, 1),
        last_addr: v4(0, 0, 0, 0, 2),
        last_activity: 1000,
    };
    assert!(c.is_alive(1000 + 7999), "7999 ms of silence is still alive");
    assert!(!c.is_alive(1000 + 8000), "8000 ms of silence is dead");
    assert!(!c.is_alive(500), "activity recorded in the future counts as dead");
}

#[test]
fn test_backend_insert_already_exists() {
    let mut rc = RemoteClient::new(MacAddress(1, 2, 3, 4, 5, 6));
    let t = BackendType::Udp(v4(0, 0, 0, 0, 7000));
    let d = BackendData::Udp(UdpClient {
        srv_addr: v4(0, 0, 0, 0, 7000),
        last_addr: v4(9, 9, 9, 9, 1),
        last_activity: 0,
    });
    assert!(rc.insert_entry(t, d).is_ok());
    let d2 = BackendData::Udp(UdpClient {
        srv_addr: v4(0, 0, 0, 0, 7000),
        last_addr: v4(8, 8, 8, 8, 2),
        last_activity: 99,
    });
    match rc.insert_entry(t, d2) {
        Err(BDataInsertionFailure::AlreadyExists) => {}
        Ok(_) => panic!("a duplicate backend entry must be rejected"),
    }
    // The first entry survives untouched.
    match rc.find_entry(&t) {
        Some(BackendData::Udp(u)) => {
            assert_eq!(u.last_addr, v4(9, 9, 9, 9, 1));
            assert_eq!(u.last_activity, 0);
        }
        None => panic!("the original entry must still be there"),
    }
}

#[test]
fn test_flush_ownership() {
    // Two listeners share one session table; only the listener whose
    // address the session was reached through delivers its queue.
    let local_a = v4(0, 0, 0, 0, 16050);
    let local_b = v4(0, 0, 0, 0, 16051);
    let mut srv_a = UdpServer::new(local_a);
    let srv_b = UdpServer::new(local_b);
    let mut map = RemoteMap::new();

    let peer = v4(127, 0, 0, 5, 60000);
    srv_a.connect_to_server(peer, 0, &mut map);

    let from_a = srv_a.collect_outgoing(&map);
    let from_b = srv_b.collect_outgoing(&map);
    assert_eq!(from_a.len(), 1, "the owning listener delivers the queue");
    assert_eq!(from_b.len(), 0, "another listener must skip the session");

    // Queues are cleared unconditionally at the end of the cycle.
    map.clear_all_outgoing();
    assert_eq!(srv_a.collect_outgoing(&map).len(), 0);
}

#[test]
fn test_address_rebinding_updates_last_addr() {
    // The peer roams to a new port; after a handshake from the new
    // address, delivery follows the most recent address.
    let local = v4(0, 0, 0, 0, 16060);
    let mut srv = UdpServer::new(local);
    let mut map = RemoteMap::new();

    let addr1 = v4(192, 168, 1, 9, 50000);
    let buf = handshake_bytes();
    srv.receive_packet(&buf, addr1, 0, &mut map);
    assert_eq!(map.len(), 1);

    match srv.get_udp_client(map.wrapper_at(0)) {
        Some(u) => assert_eq!(u.last_addr, addr1),
        None => panic!("backend data missing"),
    }

    // Same IP, new port: the handshake re-registers the address under the
    // same identity, never a second session.
    let addr2 = v4(192, 168, 1, 9, 50001);
    srv.receive_packet(&buf, addr2, 10, &mut map);
    assert_eq!(map.len(), 1, "rebinding must not create a second session");

    // The next datagram from the new address refreshes the backend entry.
    let mut hb: Vec<u8> = Vec::new();
    put_u32(&mut hb, server::ids::HEARTBEAT);
    put_u64(&mut hb, 3u64);
    srv.receive_packet(&hb, addr2, 20, &mut map);

    match srv.get_udp_client(map.wrapper_at(0)) {
        Some(u) => {
            assert_eq!(u.last_addr, addr2);
            assert_eq!(u.last_activity, 20);
        }
        None => panic!("backend data missing"),
    }
}
