//! Peer sessions and their role logic.
//!
//! A `RemoteClient` holds what any remote connection needs: an outgoing
//! packet queue, a backend-data table and the peer's identity.  Around it,
//! `Client` is a device-facing session (this process is the hub, the peer
//! is a tracker) and `Server` is a hub-facing session (this process acts as
//! a tracker connecting out to a hub).  `RemoteClientWrapper` is the closed
//! sum of the two.
//!
//! Once a session is created its identity never changes; every method
//! states so.

use vstd::prelude::*;

use crate::backends::{
    BDataInsertionFailure, BDataMap, BackendData, BackendType, bdata_after_touch,
};
use crate::client::ClientHandshake;
use crate::tracker::{Sensor, TrackerData};
use crate::types::{FirmwareString, HandshakeData, ImuInfo, MacAddress, SensorID};

verus! {

/// Access to a session's outgoing packet queue: raw encoded bytes, kept in
/// insertion order, drained and cleared every flush cycle.
pub trait PacketBuffered {
    /// The queued packets, each as its byte sequence.
    spec fn outgoing(&self) -> Seq<Seq<u8>>;

    /// Queues one encoded packet.
    fn send_packet(&mut self, pkt: Vec<u8>)
        ensures
            final(self).outgoing() == old(self).outgoing().push(pkt@),
    ;

    /// The queued packets, oldest first.
    fn get_outgoing_packets(&self) -> (r: &Vec<Vec<u8>>)
        ensures
            r@.map_values(|p: Vec<u8>| p@) == self.outgoing(),
    ;

    /// Empties the queue.
    fn clear_outgoing(&mut self)
        ensures
            final(self).outgoing() == Seq::<Seq<u8>>::empty(),
    ;
}

/// Access to a session's backend-data table, at most one entry per
/// `BackendType`.
pub trait BDataContainer {
    /// The table as a map.
    spec fn bdata(&self) -> Map<BackendType, BackendData>;

    /// The table's keys are distinct.
    spec fn bdata_wf(&self) -> bool;

    /// The entry of one backend type, if present.
    fn find_bdata(&self, btype: &BackendType) -> (r: Option<&BackendData>)
        requires
            self.bdata_wf(),
        ensures
            match r {
                Some(d) => self.bdata().contains_key(*btype) && *d == self.bdata()[*btype],
                None => !self.bdata().contains_key(*btype),
            },
    ;

    /// Inserts an entry; a backend type already present reports
    /// `AlreadyExists` and mutates nothing.
    fn insert_bdata(&mut self, t: BackendType, d: BackendData) -> (r: Result<
        (),
        BDataInsertionFailure,
    >)
        requires
            old(self).bdata_wf(),
        ensures
            final(self).bdata_wf(),
            match r {
                Ok(_) => !old(self).bdata().contains_key(t) && final(self).bdata() == old(
                    self,
                ).bdata().insert(t, d),
                Err(_) => old(self).bdata().contains_key(t) && final(self).bdata() == old(
                    self,
                ).bdata(),
            },
    ;
}

/// The state every remote connection needs: backend-data table, outgoing
/// queue, identity.
#[derive(Debug)]
pub struct RemoteClient {
    clients: BDataMap,
    outgoing_buf: Vec<Vec<u8>>,
    mac: MacAddress,
}

impl RemoteClient {
    pub closed spec fn spec_outgoing(&self) -> Seq<Seq<u8>> {
        self.outgoing_buf@.map_values(|p: Vec<u8>| p@)
    }

    pub closed spec fn spec_bdata(&self) -> Map<BackendType, BackendData> {
        self.clients.as_bmap()
    }

    pub closed spec fn wf(&self) -> bool {
        self.clients.wf()
    }

    /// The identity the session was created with.
    pub closed spec fn identity(&self) -> MacAddress {
        self.mac
    }

    /// A fresh session: empty queue, empty backend table, the given
    /// identity.
    pub fn new(mac: MacAddress) -> (r: RemoteClient)
        ensures
            r.wf(),
            r.spec_outgoing() == Seq::<Seq<u8>>::empty(),
            r.spec_bdata() == Map::<BackendType, BackendData>::empty(),
            r.identity() == mac,
    {
        let r = RemoteClient { clients: BDataMap::new(), outgoing_buf: Vec::new(), mac };
        proof {
            assert(r.spec_outgoing() =~= Seq::<Seq<u8>>::empty());
        }
        r
    }

    /// Queues one encoded packet; nothing else changes.
    pub fn queue_packet(&mut self, pkt: Vec<u8>)
        ensures
            final(self).spec_outgoing() == old(self).spec_outgoing().push(pkt@),
            final(self).spec_bdata() == old(self).spec_bdata(),
            final(self).identity() == old(self).identity(),
            final(self).wf() == old(self).wf(),
    {
        self.outgoing_buf.push(pkt);
        proof {
            assert(self.spec_outgoing() =~= old(self).spec_outgoing().push(pkt@));
        }
    }

    /// The queued packets, oldest first.
    pub fn outgoing_packets(&self) -> (r: &Vec<Vec<u8>>)
        ensures
            r@.map_values(|p: Vec<u8>| p@) == self.spec_outgoing(),
    {
        &self.outgoing_buf
    }

    /// Empties the queue; nothing else changes.
    pub fn clear_queue(&mut self)
        ensures
            final(self).spec_outgoing() == Seq::<Seq<u8>>::empty(),
            final(self).spec_bdata() == old(self).spec_bdata(),
            final(self).identity() == old(self).identity(),
            final(self).wf() == old(self).wf(),
    {
        self.outgoing_buf.clear();
        proof {
            assert(self.spec_outgoing() =~= Seq::<Seq<u8>>::empty());
        }
    }

    /// The backend entry of one backend type, if present.
    pub fn find_entry(&self, btype: &BackendType) -> (r: Option<&BackendData>)
        requires
            self.wf(),
        ensures
            match r {
                Some(d) => self.spec_bdata().contains_key(*btype) && *d == self.spec_bdata()
                    .index(*btype),
                None => !self.spec_bdata().contains_key(*btype),
            },
    {
        self.clients.find(btype)
    }

    /// Inserts a backend entry; a backend type already present reports
    /// `AlreadyExists` and mutates nothing.
    pub fn insert_entry(&mut self, t: BackendType, d: BackendData) -> (r: Result<
        (),
        BDataInsertionFailure,
    >)
        requires
            old(self).wf(),
        ensures
            final(self).wf(),
            final(self).spec_outgoing() == old(self).spec_outgoing(),
            final(self).identity() == old(self).identity(),
            match r {
                Ok(_) => !old(self).spec_bdata().contains_key(t) && final(self).spec_bdata()
                    == old(self).spec_bdata().insert(t, d),
                Err(_) => old(self).spec_bdata().contains_key(t) && final(self).spec_bdata()
                    == old(self).spec_bdata(),
            },
    {
        self.clients.insert(t, d)
    }

    /// Overwrites the entry of a backend type already present.
    pub fn update_entry(&mut self, t: &BackendType, d: BackendData) -> (r: bool)
        requires
            old(self).wf(),
        ensures
            final(self).wf(),
            final(self).spec_outgoing() == old(self).spec_outgoing(),
            final(self).identity() == old(self).identity(),
            r == old(self).spec_bdata().contains_key(*t),
            r ==> final(self).spec_bdata() == old(self).spec_bdata().insert(*t, d),
            !r ==> final(self).spec_bdata() == old(self).spec_bdata(),
    {
        self.clients.update(t, d)
    }

    /// Records a datagram on the entry of one backend type, if present:
    /// the peer's last address and last activity; the entry's local bound
    /// address stays.
    pub fn touch_entry(&mut self, t: &BackendType, addr: crate::net::SockAddr, now_ms: u64)
        requires
            old(self).wf(),
        ensures
            final(self).wf(),
            final(self).spec_outgoing() == old(self).spec_outgoing(),
            final(self).identity() == old(self).identity(),
            final(self).spec_bdata() == bdata_after_touch(old(self).spec_bdata(), *t, addr, now_ms),
    {
        let entry: Option<BackendData> = match self.clients.find(t) {
            Some(d) => match d {
                BackendData::Udp(u) => Some(
                    BackendData::Udp(
                        crate::backends::UdpClient {
                            srv_addr: u.srv_addr,
                            last_addr: addr,
                            last_activity: now_ms,
                        },
                    ),
                ),
            },
            None => None,
        };
        match entry {
            Some(d) => {
                let _ = self.clients.update(t, d);
            },
            None => {},
        }
    }
}

impl PacketBuffered for RemoteClient {
    closed spec fn outgoing(&self) -> Seq<Seq<u8>> {
        self.spec_outgoing()
    }

    fn send_packet(&mut self, pkt: Vec<u8>) {
        self.queue_packet(pkt);
    }

    fn get_outgoing_packets(&self) -> (r: &Vec<Vec<u8>>) {
        self.outgoing_packets()
    }

    fn clear_outgoing(&mut self) {
        self.clear_queue();
    }
}

impl BDataContainer for RemoteClient {
    closed spec fn bdata(&self) -> Map<BackendType, BackendData> {
        self.spec_bdata()
    }

    closed spec fn bdata_wf(&self) -> bool {
        self.wf()
    }

    fn find_bdata(&self, btype: &BackendType) -> (r: Option<&BackendData>) {
        self.find_entry(btype)
    }

    fn insert_bdata(&mut self, t: BackendType, d: BackendData) -> (r: Result<
        (),
        BDataInsertionFailure,
    >) {
        self.insert_entry(t, d)
    }
}

/// The bytes of the version-handshake reply a device-facing session sends
/// back: a downlink handshake carrying protocol version `5`.
pub open spec fn handshake_reply_bytes() -> Seq<u8> {
    crate::client::spec_encode(
        crate::client::PacketType::Handshake(ClientHandshake { version: '5' as u8 }),
    )
}

/// The outgoing queue of a device-facing session after one uplink packet:
/// a handshake queues the version reply, nothing else does.
pub open spec fn outgoing_after_uplink(o: Seq<Seq<u8>>, v: crate::server::PacketView) -> Seq<
    Seq<u8>,
> {
    match v {
        crate::server::PacketView::Handshake(_, _) => o.push(handshake_reply_bytes()),
        _ => o,
    }
}

/// The sensor table of a device-facing session after one uplink packet:
/// a plain rotation updates sensor 0, the alternate rotation report
/// updates sensor 1, rotation data's Normal sub-variant updates its named
/// sensor, and every other kind (the Correction sub-variant included)
/// leaves the table alone.
pub open spec fn sensors_after_uplink(s: Map<SensorID, Sensor>, v: crate::server::PacketView) -> Map<
    SensorID,
    Sensor,
> {
    match v {
        crate::server::PacketView::Rotation(_, q) => s.insert(0, Sensor { last_quat: q }),
        crate::server::PacketView::Rotation2(_, q) => s.insert(1, Sensor { last_quat: q }),
        crate::server::PacketView::RotationData(
            _,
            sid,
            crate::server::RotationDataType::Normal(q, _),
        ) => s.insert(sid, Sensor { last_quat: q }),
        _ => s,
    }
}

/// The sensor count after one uplink packet: it grows by one exactly when
/// a rotation report names a sensor index not seen before.
pub open spec fn sensors_count_after_uplink(
    s: Map<SensorID, Sensor>,
    count: nat,
    v: crate::server::PacketView,
) -> nat {
    match v {
        crate::server::PacketView::Rotation(_, _) => if s.contains_key(0) {
            count
        } else {
            count + 1
        },
        crate::server::PacketView::Rotation2(_, _) => if s.contains_key(1) {
            count
        } else {
            count + 1
        },
        crate::server::PacketView::RotationData(
            _,
            sid,
            crate::server::RotationDataType::Normal(_, _),
        ) => if s.contains_key(sid) {
            count
        } else {
            count + 1
        },
        _ => count,
    }
}

/// A device-facing session: this process is the hub, the peer is a
/// tracker.  The peer sends uplink packets; replies are downlink packets.
#[derive(Debug)]
pub struct Client {
    remote: RemoteClient,
    tracker: TrackerData,
}

impl Client {
    pub closed spec fn spec_outgoing(&self) -> Seq<Seq<u8>> {
        self.remote.spec_outgoing()
    }

    pub closed spec fn spec_bdata(&self) -> Map<BackendType, BackendData> {
        self.remote.spec_bdata()
    }

    pub closed spec fn identity(&self) -> MacAddress {
        self.remote.identity()
    }

    pub closed spec fn sensors(&self) -> Map<SensorID, Sensor> {
        self.tracker.sensors_map()
    }

    pub closed spec fn sensors_count(&self) -> nat {
        self.tracker.sensors_seq().len()
    }

    pub closed spec fn heartbeat(&self) -> u64 {
        self.tracker.heartbeat()
    }

    pub closed spec fn wf(&self) -> bool {
        self.remote.wf() && self.tracker.wf()
    }

    /// A fresh device-facing session, keyed by the handshake's identity.
    /// No sensors have reported yet.
    pub fn new(data: &HandshakeData) -> (r: Client)
        ensures
            r.wf(),
            r.identity() == data.mac_address,
            r.spec_outgoing() == Seq::<Seq<u8>>::empty(),
            r.spec_bdata() == Map::<BackendType, BackendData>::empty(),
            r.sensors() == Map::<SensorID, Sensor>::empty(),
            r.sensors_count() == 0,
    {
        Client { tracker: TrackerData::default(), remote: RemoteClient::new(data.mac_address) }
    }

    /// Encodes and queues one downlink packet.
    pub fn send_packet(&mut self, pkt: &crate::client::PacketType)
        ensures
            final(self).wf() == old(self).wf(),
            final(self).spec_outgoing() == old(self).spec_outgoing().push(
                crate::client::spec_encode(*pkt),
            ),
            final(self).spec_bdata() == old(self).spec_bdata(),
            final(self).identity() == old(self).identity(),
            final(self).sensors() == old(self).sensors(),
            final(self).sensors_count() == old(self).sensors_count(),
            final(self).heartbeat() == old(self).heartbeat(),
    {
        match crate::client::to_bytes(pkt) {
            Some(bytes) => self.remote.queue_packet(bytes),
            None => (),
        }
    }

    /// The decoded sensor state of this session's device.
    pub fn get_tracker(&self) -> (r: &TrackerData)
        ensures
            r.sensors_map() == self.sensors(),
            r.sensors_seq().len() == self.sensors_count(),
            r.heartbeat() == self.heartbeat(),
            self.wf() ==> r.wf(),
    {
        &self.tracker
    }

    /// Reacts to a handshake: queue the version-handshake reply.
    pub fn handle_handshake(&mut self, _h: HandshakeData)
        ensures
            final(self).wf() == old(self).wf(),
            final(self).spec_outgoing() == old(self).spec_outgoing().push(
                handshake_reply_bytes(),
            ),
            final(self).spec_bdata() == old(self).spec_bdata(),
            final(self).identity() == old(self).identity(),
            final(self).sensors() == old(self).sensors(),
            final(self).sensors_count() == old(self).sensors_count(),
            final(self).heartbeat() == old(self).heartbeat(),
    {
        let response = crate::client::PacketType::Handshake(ClientHandshake { version: '5' as u8 });
        self.send_packet(&response);
    }

    /// Records a datagram on this listener's backend entry, if present.
    pub fn touch_entry(&mut self, t: &BackendType, addr: crate::net::SockAddr, now_ms: u64)
        requires
            old(self).wf(),
        ensures
            final(self).wf(),
            final(self).spec_outgoing() == old(self).spec_outgoing(),
            final(self).identity() == old(self).identity(),
            final(self).spec_bdata() == bdata_after_touch(old(self).spec_bdata(), *t, addr, now_ms),
            final(self).sensors() == old(self).sensors(),
            final(self).sensors_count() == old(self).sensors_count(),
            final(self).heartbeat() == old(self).heartbeat(),
    {
        self.remote.touch_entry(t, addr, now_ms);
    }

    fn update_rotation(&mut self, id: SensorID, quat: crate::types::Quaternion)
        requires
            old(self).wf(),
        ensures
            final(self).wf(),
            final(self).sensors() == old(self).sensors().insert(id, Sensor { last_quat: quat }),
            final(self).sensors_count() == if old(self).sensors().contains_key(id) {
                old(self).sensors_count()
            } else {
                old(self).sensors_count() + 1
            },
            final(self).spec_outgoing() == old(self).spec_outgoing(),
            final(self).spec_bdata() == old(self).spec_bdata(),
            final(self).identity() == old(self).identity(),
            final(self).heartbeat() == old(self).heartbeat(),
    {
        self.tracker.update_rotation(id, quat)
    }

    /// Handles one decoded uplink packet: any packet refreshes the
    /// heartbeat; rotation reports update sensor state (plain rotation is
    /// sensor 0, the alternate report is sensor 1, rotation data's Normal
    /// sub-variant is its named sensor); a handshake queues the version
    /// reply.  The remaining kinds, and the Correction sub-variant, are
    /// deliberate no-ops.
    pub fn receive_packet(&mut self, pkt: crate::server::PacketType, now_ms: u64)
        requires
            old(self).wf(),
        ensures
            final(self).wf(),
            final(self).heartbeat() == now_ms,
            final(self).identity() == old(self).identity(),
            final(self).spec_bdata() == old(self).spec_bdata(),
            final(self).spec_outgoing() == outgoing_after_uplink(old(self).spec_outgoing(), pkt@),
            final(self).sensors() == sensors_after_uplink(old(self).sensors(), pkt@),
            final(self).sensors_count() == sensors_count_after_uplink(
                old(self).sensors(),
                old(self).sensors_count(),
                pkt@,
            ),
    {
        self.tracker.set_heartbeat(now_ms);
        match pkt {
            crate::server::PacketType::Heartbeat(_) => {},
            crate::server::PacketType::Rotation(_, q) => self.update_rotation(0, q),
            crate::server::PacketType::Gyroscope(_, _) => {},
            crate::server::PacketType::Handshake(_, h) => self.handle_handshake(h),
            crate::server::PacketType::Accelerometer(_, _) => {},
            crate::server::PacketType::Magnetometer(_, _) => {},
            crate::server::PacketType::RawCalibration(_, _) => {},
            crate::server::PacketType::GyroCalibration(_, _) => {},
            crate::server::PacketType::Config(_, _) => {},
            crate::server::PacketType::RawMagnetometer(_, _) => {},
            crate::server::PacketType::Ping(_, _) => {},
            crate::server::PacketType::Serial(_, _) => {},
            crate::server::PacketType::Battery(_, _) => {},
            crate::server::PacketType::Tap(_, _, _) => {},
            crate::server::PacketType::ResetReason(_, _) => {},
            crate::server::PacketType::SensorInfo(_, _, _) => {},
            crate::server::PacketType::Rotation2(_, q) => self.update_rotation(1, q),
            crate::server::PacketType::RotationData(_, sid, t) => match t {
                crate::server::RotationDataType::Normal(q, _) => self.update_rotation(sid, q),
                crate::server::RotationDataType::Correction(_, _) => {},
            },
            crate::server::PacketType::MagnetometerAccuracy(_, _, _) => {},
        }
    }
}

impl PacketBuffered for Client {
    closed spec fn outgoing(&self) -> Seq<Seq<u8>> {
        self.spec_outgoing()
    }

    fn send_packet(&mut self, pkt: Vec<u8>) {
        self.remote.queue_packet(pkt);
    }

    fn get_outgoing_packets(&self) -> (r: &Vec<Vec<u8>>) {
        self.remote.outgoing_packets()
    }

    fn clear_outgoing(&mut self) {
        self.remote.clear_queue();
    }
}

impl BDataContainer for Client {
    closed spec fn bdata(&self) -> Map<BackendType, BackendData> {
        self.spec_bdata()
    }

    closed spec fn bdata_wf(&self) -> bool {
        self.remote.wf()
    }

    fn find_bdata(&self, btype: &BackendType) -> (r: Option<&BackendData>) {
        self.remote.find_entry(btype)
    }

    fn insert_bdata(&mut self, t: BackendType, d: BackendData) -> (r: Result<
        (),
        BDataInsertionFailure,
    >) {
        self.remote.insert_entry(t, d)
    }
}

/// The view of the opening handshake a hub-facing session sends: all type
/// codes zero, the default firmware name, the all-zero identity.
pub open spec fn initial_handshake_view() -> crate::server::PacketView {
    crate::server::PacketView::Handshake(
        0,
        crate::types::HandshakeView {
            board_type: 0,
            imu_type: 0,
            mcu_type: 0,
            imu_info: ImuInfo(0, 0, 0),
            firmware_build: 0,
            firmware: crate::types::default_firmware_bytes(),
            mac_address: MacAddress(0, 0, 0, 0, 0, 0),
        },
    )
}

/// A hub-facing session: this process impersonates a tracker and connects
/// out to a hub.  It sends uplink packets and receives downlink packets.
#[derive(Debug)]
pub struct Server {
    remote: RemoteClient,
}

impl Server {
    pub closed spec fn spec_outgoing(&self) -> Seq<Seq<u8>> {
        self.remote.spec_outgoing()
    }

    pub closed spec fn spec_bdata(&self) -> Map<BackendType, BackendData> {
        self.remote.spec_bdata()
    }

    pub closed spec fn identity(&self) -> MacAddress {
        self.remote.identity()
    }

    pub closed spec fn wf(&self) -> bool {
        self.remote.wf()
    }

    /// A fresh hub-facing session with the given identity.
    pub fn new(mac: MacAddress) -> (r: Server)
        ensures
            r.wf(),
            r.identity() == mac,
            r.spec_outgoing() == Seq::<Seq<u8>>::empty(),
            r.spec_bdata() == Map::<BackendType, BackendData>::empty(),
    {
        Server { remote: RemoteClient::new(mac) }
    }

    /// Encodes and queues one uplink packet.
    pub fn send_packet(&mut self, pkt: &crate::server::PacketType)
        requires
            pkt.wf(),
        ensures
            final(self).wf() == old(self).wf(),
            final(self).spec_outgoing() == old(self).spec_outgoing().push(
                crate::server::spec_encode(pkt@),
            ),
            final(self).spec_bdata() == old(self).spec_bdata(),
            final(self).identity() == old(self).identity(),
    {
        match crate::server::to_bytes(pkt) {
            Some(bytes) => self.remote.queue_packet(bytes),
            None => (),
        }
    }

    /// Handles one decoded downlink packet.  A handshake reports the
    /// negotiated version to the operator; nothing here changes session
    /// state.
    pub fn receive_packet(&mut self, pkt: crate::client::PacketType)
        ensures
            final(self).wf() == old(self).wf(),
            final(self).spec_outgoing() == old(self).spec_outgoing(),
            final(self).spec_bdata() == old(self).spec_bdata(),
            final(self).identity() == old(self).identity(),
    {
        match pkt {
            crate::client::PacketType::Handshake(hnd) => self.handle_handshake(hnd),
            crate::client::PacketType::Other(_) => {},
        }
    }

    /// Queues the opening handshake: the very first outgoing packet when
    /// this process actively connects out.
    pub fn send_handshake_to_server(&mut self)
        ensures
            final(self).wf() == old(self).wf(),
            final(self).spec_outgoing() == old(self).spec_outgoing().push(
                crate::server::spec_encode(initial_handshake_view()),
            ),
            final(self).spec_bdata() == old(self).spec_bdata(),
            final(self).identity() == old(self).identity(),
    {
        let req = crate::server::PacketType::Handshake(
            0,
            HandshakeData {
                board_type: 0,
                imu_type: 0,
                mcu_type: 0,
                imu_info: ImuInfo(0, 0, 0),
                firmware_build: 0,
                firmware: FirmwareString::default(),
                mac_address: MacAddress(0, 0, 0, 0, 0, 0),
            },
        );
        self.send_packet(&req);
    }

    /// Records a datagram on this listener's backend entry, if present.
    pub fn touch_entry(&mut self, t: &BackendType, addr: crate::net::SockAddr, now_ms: u64)
        requires
            old(self).wf(),
        ensures
            final(self).wf(),
            final(self).spec_outgoing() == old(self).spec_outgoing(),
            final(self).identity() == old(self).identity(),
            final(self).spec_bdata() == bdata_after_touch(old(self).spec_bdata(), *t, addr, now_ms),
    {
        self.remote.touch_entry(t, addr, now_ms);
    }

    /// Acknowledges the negotiated protocol version; session state is
    /// untouched.
    pub fn handle_handshake(&mut self, _hnd: ClientHandshake)
        ensures
            final(self).wf() == old(self).wf(),
            final(self).spec_outgoing() == old(self).spec_outgoing(),
            final(self).spec_bdata() == old(self).spec_bdata(),
            final(self).identity() == old(self).identity(),
    {
    }
}

impl PacketBuffered for Server {
    closed spec fn outgoing(&self) -> Seq<Seq<u8>> {
        self.spec_outgoing()
    }

    fn send_packet(&mut self, pkt: Vec<u8>) {
        self.remote.queue_packet(pkt);
    }

    fn get_outgoing_packets(&self) -> (r: &Vec<Vec<u8>>) {
        self.remote.outgoing_packets()
    }

    fn clear_outgoing(&mut self) {
        self.remote.clear_queue();
    }
}

impl BDataContainer for Server {
    closed spec fn bdata(&self) -> Map<BackendType, BackendData> {
        self.spec_bdata()
    }

    closed spec fn bdata_wf(&self) -> bool {
        self.remote.wf()
    }

    fn find_bdata(&self, btype: &BackendType) -> (r: Option<&BackendData>) {
        self.remote.find_entry(btype)
    }

    fn insert_bdata(&mut self, t: BackendType, d: BackendData) -> (r: Result<
        (),
        BDataInsertionFailure,
    >) {
        self.remote.insert_entry(t, d)
    }
}

/// One peer session: exactly one of the two roles.
#[derive(Debug)]
pub enum RemoteClientWrapper {
    Client(Client),
    Server(Server),
}

impl RemoteClientWrapper {
    pub open spec fn spec_outgoing(&self) -> Seq<Seq<u8>> {
        match *self {
            RemoteClientWrapper::Client(ref c) => c.spec_outgoing(),
            RemoteClientWrapper::Server(ref s) => s.spec_outgoing(),
        }
    }

    pub open spec fn spec_bdata(&self) -> Map<BackendType, BackendData> {
        match *self {
            RemoteClientWrapper::Client(ref c) => c.spec_bdata(),
            RemoteClientWrapper::Server(ref s) => s.spec_bdata(),
        }
    }

    pub open spec fn identity(&self) -> MacAddress {
        match *self {
            RemoteClientWrapper::Client(ref c) => c.identity(),
            RemoteClientWrapper::Server(ref s) => s.identity(),
        }
    }

    pub open spec fn wf(&self) -> bool {
        match *self {
            RemoteClientWrapper::Client(ref c) => c.wf(),
            RemoteClientWrapper::Server(ref s) => s.wf(),
        }
    }

    /// The queued packets, oldest first.
    pub fn outgoing_packets(&self) -> (r: &Vec<Vec<u8>>)
        ensures
            r@.map_values(|p: Vec<u8>| p@) == self.spec_outgoing(),
    {
        match self {
            RemoteClientWrapper::Client(c) => c.remote.outgoing_packets(),
            RemoteClientWrapper::Server(s) => s.remote.outgoing_packets(),
        }
    }

    /// Queues one encoded packet; role state, backend data and identity
    /// stay.
    pub fn queue_packet(&mut self, pkt: Vec<u8>)
        ensures
            final(self).spec_outgoing() == old(self).spec_outgoing().push(pkt@),
            final(self).spec_bdata() == old(self).spec_bdata(),
            final(self).identity() == old(self).identity(),
            final(self).wf() == old(self).wf(),
            (*final(self)) is Client == (*old(self)) is Client,
            final(self).sensors_or_empty() == old(self).sensors_or_empty(),
    {
        match self {
            RemoteClientWrapper::Client(c) => c.remote.queue_packet(pkt),
            RemoteClientWrapper::Server(s) => s.remote.queue_packet(pkt),
        }
    }

    /// Empties the queue; role state, backend data and identity stay.
    pub fn clear_queue(&mut self)
        ensures
            final(self).spec_outgoing() == Seq::<Seq<u8>>::empty(),
            final(self).spec_bdata() == old(self).spec_bdata(),
            final(self).identity() == old(self).identity(),
            final(self).wf() == old(self).wf(),
            (*final(self)) is Client == (*old(self)) is Client,
            final(self).sensors_or_empty() == old(self).sensors_or_empty(),
    {
        match self {
            RemoteClientWrapper::Client(c) => c.remote.clear_queue(),
            RemoteClientWrapper::Server(s) => s.remote.clear_queue(),
        }
    }

    /// The sensor table of a device-facing session; a hub-facing session
    /// has none.
    pub open spec fn sensors_or_empty(&self) -> Map<SensorID, Sensor> {
        match *self {
            RemoteClientWrapper::Client(ref c) => c.sensors(),
            RemoteClientWrapper::Server(_) => Map::empty(),
        }
    }

    /// The sensor count of a device-facing session; zero for hub-facing.
    pub open spec fn sensors_count_or_zero(&self) -> nat {
        match *self {
            RemoteClientWrapper::Client(ref c) => c.sensors_count(),
            RemoteClientWrapper::Server(_) => 0,
        }
    }

    /// The heartbeat of a device-facing session; zero for hub-facing.
    pub open spec fn heartbeat_or_zero(&self) -> u64 {
        match *self {
            RemoteClientWrapper::Client(ref c) => c.heartbeat(),
            RemoteClientWrapper::Server(_) => 0,
        }
    }

    /// The backend entry of one backend type, if present.
    pub fn find_entry(&self, btype: &BackendType) -> (r: Option<&BackendData>)
        requires
            self.wf(),
        ensures
            match r {
                Some(d) => self.spec_bdata().contains_key(*btype) && *d == self.spec_bdata()
                    .index(*btype),
                None => !self.spec_bdata().contains_key(*btype),
            },
    {
        match self {
            RemoteClientWrapper::Client(c) => c.remote.find_entry(btype),
            RemoteClientWrapper::Server(s) => s.remote.find_entry(btype),
        }
    }

    /// Inserts a backend entry; a backend type already present reports
    /// `AlreadyExists` and mutates nothing else.
    pub fn insert_entry(&mut self, t: BackendType, d: BackendData) -> (r: Result<
        (),
        BDataInsertionFailure,
    >)
        requires
            old(self).wf(),
        ensures
            final(self).wf(),
            final(self).spec_outgoing() == old(self).spec_outgoing(),
            final(self).identity() == old(self).identity(),
            (*final(self)) is Client == (*old(self)) is Client,
            final(self).sensors_or_empty() == old(self).sensors_or_empty(),
            match r {
                Ok(_) => !old(self).spec_bdata().contains_key(t) && final(self).spec_bdata()
                    == old(self).spec_bdata().insert(t, d),
                Err(_) => old(self).spec_bdata().contains_key(t) && final(self).spec_bdata()
                    == old(self).spec_bdata(),
            },
    {
        match self {
            RemoteClientWrapper::Client(c) => c.remote.insert_entry(t, d),
            RemoteClientWrapper::Server(s) => s.remote.insert_entry(t, d),
        }
    }

    /// Overwrites the entry of a backend type already present.
    pub fn update_entry(&mut self, t: &BackendType, d: BackendData) -> (r: bool)
        requires
            old(self).wf(),
        ensures
            final(self).wf(),
            final(self).spec_outgoing() == old(self).spec_outgoing(),
            final(self).identity() == old(self).identity(),
            (*final(self)) is Client == (*old(self)) is Client,
            final(self).sensors_or_empty() == old(self).sensors_or_empty(),
            r == old(self).spec_bdata().contains_key(*t),
            r ==> final(self).spec_bdata() == old(self).spec_bdata().insert(*t, d),
            !r ==> final(self).spec_bdata() == old(self).spec_bdata(),
    {
        match self {
            RemoteClientWrapper::Client(c) => c.remote.update_entry(t, d),
            RemoteClientWrapper::Server(s) => s.remote.update_entry(t, d),
        }
    }
}

impl PacketBuffered for RemoteClientWrapper {
    open spec fn outgoing(&self) -> Seq<Seq<u8>> {
        self.spec_outgoing()
    }

    fn send_packet(&mut self, pkt: Vec<u8>) {
        match self {
            RemoteClientWrapper::Client(c) => c.remote.queue_packet(pkt),
            RemoteClientWrapper::Server(s) => s.remote.queue_packet(pkt),
        }
    }

    fn get_outgoing_packets(&self) -> (r: &Vec<Vec<u8>>) {
        self.outgoing_packets()
    }

    fn clear_outgoing(&mut self) {
        self.clear_queue();
    }
}

impl BDataContainer for RemoteClientWrapper {
    open spec fn bdata(&self) -> Map<BackendType, BackendData> {
        self.spec_bdata()
    }

    open spec fn bdata_wf(&self) -> bool {
        self.wf()
    }

    fn find_bdata(&self, btype: &BackendType) -> (r: Option<&BackendData>) {
        self.find_entry(btype)
    }

    fn insert_bdata(&mut self, t: BackendType, d: BackendData) -> (r: Result<
        (),
        BDataInsertionFailure,
    >) {
        self.insert_entry(t, d)
    }
}

/// How one datagram changes one session, as the listener dispatches it:
/// a device-facing session decodes the uplink grammar and reacts as
/// `Client::receive_packet` describes; a hub-facing session decodes the
/// downlink grammar (which changes no session state); in both roles a
/// successful decode records the sender's address and the time on this
/// listener's backend entry, and a failed decode changes nothing.
pub open spec fn received_transition(
    s0: RemoteClientWrapper,
    s1: RemoteClientWrapper,
    buf: Seq<u8>,
    t: BackendType,
    addr: crate::net::SockAddr,
    now_ms: u64,
) -> bool {
    &&& s1.wf()
    &&& s1.identity() == s0.identity()
    &&& (s1 is Client) == (s0 is Client)
    &&& if s0 is Client {
        match crate::server::spec_parse(buf) {
            Some(v) => {
                &&& s1.sensors_or_empty() == sensors_after_uplink(s0.sensors_or_empty(), v)
                &&& s1.sensors_count_or_zero() == sensors_count_after_uplink(
                    s0.sensors_or_empty(),
                    s0.sensors_count_or_zero(),
                    v,
                )
                &&& s1.spec_outgoing() == outgoing_after_uplink(s0.spec_outgoing(), v)
                &&& s1.spec_bdata() == bdata_after_touch(s0.spec_bdata(), t, addr, now_ms)
                &&& s1.heartbeat_or_zero() == now_ms
            },
            None => s1 == s0,
        }
    } else {
        match crate::client::spec_parse(buf) {
            Some(_) => {
                &&& s1.sensors_or_empty() == s0.sensors_or_empty()
                &&& s1.spec_outgoing() == s0.spec_outgoing()
                &&& s1.spec_bdata() == bdata_after_touch(s0.spec_bdata(), t, addr, now_ms)
            },
            None => s1 == s0,
        }
    }
}

impl RemoteClientWrapper {
    /// Reacts to an uplink handshake: a device-facing session queues the
    /// version-handshake reply; a hub-facing session does not answer.
    pub fn handle_uplink_handshake(&mut self, dat: HandshakeData)
        requires
            old(self).wf(),
        ensures
            final(self).wf(),
            final(self).identity() == old(self).identity(),
            final(self).spec_bdata() == old(self).spec_bdata(),
            (*final(self)) is Client == (*old(self)) is Client,
            final(self).sensors_or_empty() == old(self).sensors_or_empty(),
            final(self).spec_outgoing() == if (*old(self)) is Client {
                old(self).spec_outgoing().push(handshake_reply_bytes())
            } else {
                old(self).spec_outgoing()
            },
    {
        match self {
            RemoteClientWrapper::Client(c) => c.handle_handshake(dat),
            RemoteClientWrapper::Server(_) => {},
        }
    }

    /// Dispatches one raw datagram to this session: decode with the
    /// grammar of the session's role, react, and on success record the
    /// sender's address and the time on this listener's backend entry.
    pub fn handle_incoming(
        &mut self,
        buf: &[u8],
        t: &BackendType,
        addr: crate::net::SockAddr,
        now_ms: u64,
    )
        requires
            old(self).wf(),
        ensures
            received_transition(*old(self), *final(self), buf@, *t, addr, now_ms),
    {
        match self {
            RemoteClientWrapper::Client(c) => {
                match crate::server::parse_slice(buf) {
                    Some(pkt) => {
                        c.receive_packet(pkt, now_ms);
                        c.touch_entry(t, addr, now_ms);
                    },
                    None => {},
                }
            },
            RemoteClientWrapper::Server(s) => {
                match crate::client::parse_slice(buf) {
                    Some(pkt) => {
                        s.receive_packet(pkt);
                        s.touch_entry(t, addr, now_ms);
                    },
                    None => {},
                }
            },
        }
    }
}

} // verus!
