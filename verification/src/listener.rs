//! The shared session table and the UDP listener core.
//!
//! `RemoteMap` maps identities to sessions and is shared across all active
//! listeners.  `UdpServer` is the transport-independent core of one UDP
//! listener: it resolves raw datagrams (handed in as plain bytes plus the
//! sender's address and the current time) to sessions, creates sessions on
//! valid handshakes, and decides which queued packets this listener owns
//! for delivery.  The socket itself lives outside this crate: the caller
//! reads datagrams and feeds them to `receive_packet`, and sends whatever
//! `collect_outgoing` hands back.

use vstd::prelude::*;

use crate::backends::{
    BackendData, BackendType, UdpClient, bdata_after_insert, udp_entry,
};
use crate::kv::{as_map, distinct_keys, lemma_as_map_dom, lemma_as_map_index, lemma_as_map_push,
    lemma_as_map_update, lemma_distinct_push, lemma_distinct_update};
use crate::net::{SockAddr, effective_mac, ensure_pseudomac, gen_pseudomac, pseudomac};
use crate::remote_client::{
    Client, RemoteClientWrapper, Server, handshake_reply_bytes, initial_handshake_view,
    received_transition,
};
use crate::tracker::Sensor;
use crate::types::{HandshakeData, MacAddress, SensorID};

verus! {

/// The per-listener index from transport address to identity.  Only the
/// handshake carries an identity; every later packet is resolved through
/// this index.
struct AddrIndex {
    entries: Vec<(SockAddr, MacAddress)>,
}

impl AddrIndex {
    spec fn entries_seq(&self) -> Seq<(SockAddr, MacAddress)> {
        self.entries@
    }

    spec fn as_amap(&self) -> Map<SockAddr, MacAddress> {
        as_map(self.entries_seq())
    }

    spec fn wf(&self) -> bool {
        distinct_keys(self.entries_seq())
    }

    fn new() -> (r: AddrIndex)
        ensures
            r.wf(),
            r.as_amap() == Map::<SockAddr, MacAddress>::empty(),
    {
        AddrIndex { entries: Vec::new() }
    }

    fn len(&self) -> (r: usize)
        ensures
            r == self.entries_seq().len(),
    {
        self.entries.len()
    }

    fn find(&self, a: &SockAddr) -> (r: Option<MacAddress>)
        requires
            self.wf(),
        ensures
            match r {
                Some(m) => self.as_amap().contains_key(*a) && m == self.as_amap()[*a],
                None => !self.as_amap().contains_key(*a),
            },
    {
        let n = self.entries.len();
        let mut i: usize = 0;
        while i < n
            invariant
                n == self.entries_seq().len(),
                i <= n,
                self.wf(),
                forall|j: int| 0 <= j < i ==> (#[trigger] self.entries_seq()[j]).0 != *a,
            decreases n - i,
        {
            if self.entries[i].0 == *a {
                proof {
                    lemma_as_map_index(self.entries_seq(), i as int);
                }
                return Some(self.entries[i].1);
            }
            i = i + 1;
        }
        proof {
            lemma_as_map_dom(self.entries_seq(), *a);
        }
        None
    }

    /// Inserts or overwrites: the index always tracks the most recent
    /// identity seen at an address.
    fn upsert(&mut self, a: SockAddr, m: MacAddress)
        requires
            old(self).wf(),
        ensures
            final(self).wf(),
            final(self).as_amap() == old(self).as_amap().insert(a, m),
    {
        let n = self.entries.len();
        let mut i: usize = 0;
        while i < n
            invariant
                n == self.entries_seq().len(),
                i <= n,
                self.wf(),
                *self == *old(self),
                forall|j: int| 0 <= j < i ==> (#[trigger] self.entries_seq()[j]).0 != a,
            decreases n - i,
        {
            if self.entries[i].0 == a {
                proof {
                    lemma_as_map_update(self.entries_seq(), i as int, m);
                    lemma_distinct_update(self.entries_seq(), i as int, m);
                }
                self.entries.set(i, (a, m));
                return ;
            }
            i = i + 1;
        }
        proof {
            lemma_as_map_push(self.entries_seq(), a, m);
            lemma_distinct_push(self.entries_seq(), a, m);
        }
        self.entries.push((a, m));
    }
}

/// The shared session table: identity to session, one entry per identity.
#[derive(Debug)]
pub struct RemoteMap {
    keys: Vec<MacAddress>,
    vals: Vec<RemoteClientWrapper>,
}

impl RemoteMap {
    /// The table as the sequence of its entries, in creation order.
    pub closed spec fn entries_seq(&self) -> Seq<(MacAddress, RemoteClientWrapper)> {
        Seq::new(self.keys@.len(), |i: int| (self.keys@[i], self.vals@[i]))
    }

    /// The table as a map.
    pub open spec fn as_smap(&self) -> Map<MacAddress, RemoteClientWrapper> {
        as_map(self.entries_seq())
    }

    closed spec fn sized(&self) -> bool {
        self.keys@.len() == self.vals@.len()
    }

    /// Identities are distinct, every session is well formed, and every
    /// session is keyed by its own identity (which never changes).
    pub open spec fn wf(&self) -> bool {
        &&& self.basic_wf()
        &&& distinct_keys(self.entries_seq())
        &&& forall|i: int|
            0 <= i < self.entries_seq().len() ==> (#[trigger] self.entries_seq()[i]).1.wf()
                && self.entries_seq()[i].1.identity() == self.entries_seq()[i].0
    }

    /// The two columns have the same length.
    pub closed spec fn basic_wf(&self) -> bool {
        self.sized()
    }

    /// An empty table.
    pub fn new() -> (r: RemoteMap)
        ensures
            r.wf(),
            r.entries_seq().len() == 0,
            r.as_smap() == Map::<MacAddress, RemoteClientWrapper>::empty(),
    {
        let r = RemoteMap { keys: Vec::new(), vals: Vec::new() };
        proof {
            assert(r.entries_seq() =~= Seq::<(MacAddress, RemoteClientWrapper)>::empty());
        }
        r
    }

    /// The number of sessions.
    pub fn len(&self) -> (r: usize)
        requires
            self.basic_wf(),
        ensures
            r == self.entries_seq().len(),
    {
        self.keys.len()
    }

    /// The identity of the session at position `i`, in creation order.
    pub fn key_at(&self, i: usize) -> (r: MacAddress)
        requires
            self.basic_wf(),
            i < self.entries_seq().len(),
        ensures
            r == self.entries_seq()[i as int].0,
    {
        self.keys[i]
    }

    /// The session at position `i`, in creation order.
    pub fn wrapper_at(&self, i: usize) -> (r: &RemoteClientWrapper)
        requires
            self.basic_wf(),
            i < self.entries_seq().len(),
        ensures
            *r == self.entries_seq()[i as int].1,
    {
        &self.vals[i]
    }

    /// The position of an identity's session, if present.
    pub fn index_of(&self, mac: &MacAddress) -> (r: Option<usize>)
        requires
            self.wf(),
        ensures
            match r {
                Some(i) => i < self.entries_seq().len() && self.entries_seq()[i as int].0 == *mac
                    && self.as_smap().contains_key(*mac) && self.as_smap()[*mac]
                    == self.entries_seq()[i as int].1,
                None => !self.as_smap().contains_key(*mac),
            },
    {
        let n = self.keys.len();
        let mut i: usize = 0;
        while i < n
            invariant
                n == self.entries_seq().len(),
                i <= n,
                self.wf(),
                forall|j: int| 0 <= j < i ==> (#[trigger] self.entries_seq()[j]).0 != *mac,
            decreases n - i,
        {
            if self.keys[i] == *mac {
                proof {
                    lemma_as_map_index(self.entries_seq(), i as int);
                }
                return Some(i);
            }
            i = i + 1;
        }
        proof {
            lemma_as_map_dom(self.entries_seq(), *mac);
        }
        None
    }

    /// The session of an identity, if present.
    pub fn get(&self, mac: &MacAddress) -> (r: Option<&RemoteClientWrapper>)
        requires
            self.wf(),
        ensures
            match r {
                Some(w) => self.as_smap().contains_key(*mac) && *w == self.as_smap()[*mac],
                None => !self.as_smap().contains_key(*mac),
            },
    {
        match self.index_of(mac) {
            Some(i) => Some(&self.vals[i]),
            None => None,
        }
    }

    /// Adds the session of an identity not yet in the table.
    pub fn push_session(&mut self, mac: MacAddress, w: RemoteClientWrapper)
        requires
            old(self).wf(),
            !old(self).as_smap().contains_key(mac),
            w.wf(),
            w.identity() == mac,
        ensures
            final(self).wf(),
            final(self).entries_seq() == old(self).entries_seq().push((mac, w)),
            final(self).as_smap() == old(self).as_smap().insert(mac, w),
    {
        proof {
            if exists|j: int|
                0 <= j < self.entries_seq().len() && (#[trigger] self.entries_seq()[j]).0 == mac {
                let j = choose|j: int|
                    0 <= j < self.entries_seq().len() && (#[trigger] self.entries_seq()[j]).0
                        == mac;
                lemma_as_map_index(self.entries_seq(), j);
            }
            lemma_as_map_push(self.entries_seq(), mac, w);
            lemma_distinct_push(self.entries_seq(), mac, w);
        }
        self.keys.push(mac);
        self.vals.push(w);
        proof {
            assert(self.entries_seq() =~= old(self).entries_seq().push((mac, w)));
        }
    }

    /// Removes and returns the entry at position `i`.
    fn take_at(&mut self, i: usize) -> (r: (MacAddress, RemoteClientWrapper))
        requires
            old(self).basic_wf(),
            i < old(self).entries_seq().len(),
        ensures
            final(self).basic_wf(),
            r == old(self).entries_seq()[i as int],
            final(self).entries_seq() == old(self).entries_seq().remove(i as int),
    {
        let k = self.keys.remove(i);
        let w = self.vals.remove(i);
        proof {
            assert(self.entries_seq() =~= old(self).entries_seq().remove(i as int));
        }
        (k, w)
    }

    /// Puts an entry back at position `i`.
    fn put_at(&mut self, i: usize, k: MacAddress, w: RemoteClientWrapper)
        requires
            old(self).basic_wf(),
            i <= old(self).entries_seq().len(),
        ensures
            final(self).basic_wf(),
            final(self).entries_seq() == old(self).entries_seq().insert(i as int, (k, w)),
    {
        self.keys.insert(i, k);
        self.vals.insert(i, w);
        proof {
            assert(self.entries_seq() =~= old(self).entries_seq().insert(i as int, (k, w)));
        }
    }

    /// Queues one already-encoded packet on the session of an identity,
    /// for application-driven replies; reports whether the session exists.
    pub fn queue_packet_for(&mut self, mac: &MacAddress, pkt: Vec<u8>) -> (r: bool)
        requires
            old(self).wf(),
        ensures
            final(self).wf(),
            r == old(self).as_smap().contains_key(*mac),
            r ==> {
                &&& final(self).entries_seq().len() == old(self).entries_seq().len()
                &&& final(self).as_smap().dom() == old(self).as_smap().dom()
                &&& (forall|k: MacAddress|
                    k != *mac && old(self).as_smap().contains_key(k) ==> final(self).as_smap()[k]
                        == old(self).as_smap()[k])
                &&& final(self).as_smap()[*mac].spec_outgoing() == old(self).as_smap().index(
                    *mac,
                ).spec_outgoing().push(pkt@)
                &&& final(self).as_smap()[*mac].spec_bdata() == old(self).as_smap().index(
                    *mac,
                ).spec_bdata()
                &&& final(self).as_smap()[*mac].sensors_or_empty() == old(self).as_smap().index(
                    *mac,
                ).sensors_or_empty()
            },
            !r ==> final(self).entries_seq() == old(self).entries_seq(),
    {
        match self.index_of(mac) {
            Some(i) => {
                let ghost s0seq = self.entries_seq();
                let (k, mut w) = self.take_at(i);
                w.queue_packet(pkt);
                let ghost wv = w;
                self.put_at(i, k, w);
                proof {
                    assert(self.entries_seq() =~= s0seq.update(i as int, (*mac, wv)));
                    lemma_distinct_update(s0seq, i as int, wv);
                    lemma_as_map_update(s0seq, i as int, wv);
                    assert(self.as_smap().dom() =~= old(self).as_smap().dom());
                }
                true
            },
            None => false,
        }
    }

    /// Empties every session's outgoing queue; everything else stays.  The
    /// control loop does this unconditionally after flushing all
    /// listeners, whether or not every send succeeded: delivery is
    /// best-effort, at most once.
    pub fn clear_all_outgoing(&mut self)
        requires
            old(self).wf(),
        ensures
            final(self).wf(),
            final(self).entries_seq().len() == old(self).entries_seq().len(),
            forall|i: int|
                0 <= i < old(self).entries_seq().len() ==> {
                    let p0 = old(self).entries_seq()[i];
                    let p1 = #[trigger] final(self).entries_seq()[i];
                    &&& p1.0 == p0.0
                    &&& p1.1.spec_outgoing() == Seq::<Seq<u8>>::empty()
                    &&& p1.1.spec_bdata() == p0.1.spec_bdata()
                    &&& p1.1.identity() == p0.1.identity()
                    &&& (p1.1 is Client) == (p0.1 is Client)
                    &&& p1.1.sensors_or_empty() == p0.1.sensors_or_empty()
                },
    {
        let ghost orig = self.entries_seq();
        let n = self.keys.len();
        let mut cleared: Vec<RemoteClientWrapper> = Vec::new();
        while self.vals.len() > 0
            invariant
                orig == old(self).entries_seq(),
                self.keys@.len() == n,
                n == orig.len(),
                cleared@.len() + self.vals@.len() == n,
                forall|j: int|
                    0 <= j < self.vals@.len() ==> #[trigger] self.vals@[j] == orig[cleared@.len()
                        + j].1,
                forall|j: int| 0 <= j < n ==> #[trigger] self.keys@[j] == orig[j].0,
                forall|j: int|
                    0 <= j < cleared@.len() ==> {
                        let p0 = orig[j];
                        let p1 = #[trigger] cleared@[j];
                        &&& p1.spec_outgoing() == Seq::<Seq<u8>>::empty()
                        &&& p1.spec_bdata() == p0.1.spec_bdata()
                        &&& p1.identity() == p0.1.identity()
                        &&& p1.wf() == p0.1.wf()
                        &&& (p1 is Client) == (p0.1 is Client)
                        &&& p1.sensors_or_empty() == p0.1.sensors_or_empty()
                    },
            decreases self.vals@.len(),
        {
            let mut w = self.vals.remove(0);
            w.clear_queue();
            cleared.push(w);
        }
        self.vals = cleared;
        proof {
            assert(forall|i: int|
                0 <= i < n ==> (#[trigger] self.entries_seq()[i]).0 == orig[i].0);
        }
    }
}

/// How a handshake (or an active connect-out) changes the session table:
/// the session of `mac` is created if absent, or kept with its state if
/// present; no other session changes; the table grows by one entry exactly
/// when `mac` is new.  This listener's backend entry is inserted softly
/// (an existing entry stays untouched), and the role's opening packet is
/// queued on the session whose role matches (`client_role` says which role
/// this path creates and answers for).
pub open spec fn session_upserted(
    m0: RemoteMap,
    m1: RemoteMap,
    mac: MacAddress,
    local: SockAddr,
    addr: SockAddr,
    now_ms: u64,
    client_role: bool,
    reply: Seq<u8>,
) -> bool {
    let existed = m0.as_smap().contains_key(mac);
    &&& m1.entries_seq().len() == m0.entries_seq().len() + (if existed {
        0int
    } else {
        1int
    })
    &&& m1.as_smap().dom() == m0.as_smap().dom().insert(mac)
    &&& (forall|k: MacAddress|
        k != mac && m0.as_smap().contains_key(k) ==> m1.as_smap()[k] == m0.as_smap()[k])
    &&& m1.as_smap().contains_key(mac)
    &&& {
        let s1 = m1.as_smap()[mac];
        &&& s1.identity() == mac
        &&& s1.wf()
        &&& if existed {
            let s0 = m0.as_smap()[mac];
            &&& (s1 is Client) == (s0 is Client)
            &&& s1.spec_bdata() == bdata_after_insert(
                s0.spec_bdata(),
                BackendType::Udp(local),
                udp_entry(local, addr, now_ms),
            )
            &&& s1.spec_outgoing() == (if (s0 is Client) == client_role {
                s0.spec_outgoing().push(reply)
            } else {
                s0.spec_outgoing()
            })
            &&& s1.sensors_or_empty() == s0.sensors_or_empty()
        } else {
            &&& (s1 is Client) == client_role
            &&& s1.spec_bdata() == Map::<BackendType, BackendData>::empty().insert(
                BackendType::Udp(local),
                udp_entry(local, addr, now_ms),
            )
            &&& s1.spec_outgoing() == Seq::<Seq<u8>>::empty().push(reply)
            &&& s1.sensors_or_empty() == Map::<SensorID, Sensor>::empty()
        }
    }
}

/// How a received uplink handshake changes a listener's address index and
/// the session table: a legacy 12-byte handshake is skipped entirely;
/// otherwise the index records the sender's address under the handshake's
/// effective identity and the session of that identity is created or
/// refreshed.
pub open spec fn handshake_post(
    idx0: Map<SockAddr, MacAddress>,
    idx1: Map<SockAddr, MacAddress>,
    m0: RemoteMap,
    m1: RemoteMap,
    reported: MacAddress,
    local: SockAddr,
    addr: SockAddr,
    now_ms: u64,
    size: int,
) -> bool {
    if size == 12 {
        idx1 == idx0 && m1.entries_seq() == m0.entries_seq()
    } else {
        let mac = effective_mac(reported, addr);
        &&& idx1 == idx0.insert(addr, mac)
        &&& session_upserted(m0, m1, mac, local, addr, now_ms, true, handshake_reply_bytes())
    }
}

/// The byte-sequence view of collected (destination, packet) pairs.
pub open spec fn view_pairs(s: Seq<(SockAddr, Vec<u8>)>) -> Seq<(SockAddr, Seq<u8>)> {
    Seq::new(s.len(), |i: int| (s[i].0, s[i].1@))
}

/// Each packet paired with one destination address.
pub open spec fn with_dest(d: SockAddr, s: Seq<Seq<u8>>) -> Seq<(SockAddr, Seq<u8>)> {
    Seq::new(s.len(), |i: int| (d, s[i]))
}

/// What one session contributes to a flush by the listener bound to
/// `local`: nothing when its queue is empty, when this listener has no
/// backend entry for it, or when the entry's recorded local address says
/// another listener owns delivery; otherwise every queued packet, in
/// order, addressed to the peer's last known address.
pub open spec fn spec_flush_item(w: RemoteClientWrapper, local: SockAddr) -> Seq<(
    SockAddr,
    Seq<u8>,
)> {
    if w.spec_outgoing().len() == 0 {
        Seq::empty()
    } else if w.spec_bdata().contains_key(BackendType::Udp(local)) {
        match w.spec_bdata()[BackendType::Udp(local)] {
            BackendData::Udp(u) => if u.srv_addr == local {
                with_dest(u.last_addr, w.spec_outgoing())
            } else {
                Seq::empty()
            },
        }
    } else {
        Seq::empty()
    }
}

/// Everything a flush by the listener bound to `local` sends, session by
/// session in table order.
pub open spec fn spec_flush(s: Seq<(MacAddress, RemoteClientWrapper)>, local: SockAddr) -> Seq<(
    SockAddr,
    Seq<u8>,
)>
    decreases s.len(),
{
    if s.len() == 0 {
        Seq::empty()
    } else {
        spec_flush(s.drop_last(), local) + spec_flush_item(s.last().1, local)
    }
}

/// The transport-independent core of one UDP listener.
pub struct UdpServer {
    addr_to_mac: AddrIndex,
    local_addr: SockAddr,
}

impl UdpServer {
    /// The index from transport address to identity.
    pub closed spec fn addr_index(&self) -> Map<SockAddr, MacAddress> {
        self.addr_to_mac.as_amap()
    }

    /// The local address this listener is bound to.
    pub closed spec fn local(&self) -> SockAddr {
        self.local_addr
    }

    pub closed spec fn wf(&self) -> bool {
        self.addr_to_mac.wf()
    }

    /// A listener core for the given bound local address.
    pub fn new(local_addr: SockAddr) -> (r: UdpServer)
        ensures
            r.wf(),
            r.local() == local_addr,
            r.addr_index() == Map::<SockAddr, MacAddress>::empty(),
    {
        UdpServer { addr_to_mac: AddrIndex::new(), local_addr }
    }

    /// The local address this listener is bound to.
    pub fn local_addr(&self) -> (r: SockAddr)
        ensures
            r == self.local(),
    {
        self.local_addr
    }

    /// The number of addresses this listener can resolve.
    pub fn addr_count(&self) -> (r: usize)
        requires
            self.wf(),
        ensures
            r == self.addr_index().dom().len(),
    {
        proof {
            crate::kv::lemma_as_map_dom_len(self.addr_to_mac.entries_seq());
        }
        self.addr_to_mac.len()
    }

    /// This listener's backend entry for a session, if any.
    pub fn get_udp_client<'a>(&self, rc: &'a RemoteClientWrapper) -> (r: Option<&'a UdpClient>)
        requires
            rc.wf(),
        ensures
            match r {
                Some(u) => rc.spec_bdata().contains_key(BackendType::Udp(self.local()))
                    && rc.spec_bdata()[BackendType::Udp(self.local())] == BackendData::Udp(*u),
                None => !rc.spec_bdata().contains_key(BackendType::Udp(self.local())),
            },
    {
        match rc.find_entry(&BackendType::Udp(self.local_addr)) {
            Some(d) => match d {
                BackendData::Udp(u) => Some(u),
            },
            None => None,
        }
    }

    /// Handles a decoded uplink handshake from an unknown address, as
    /// `handshake_post` describes: a legacy 12-byte handshake is skipped;
    /// otherwise the identity is settled (deriving a pseudo-identity from
    /// the address when the report is all-zero), the address index is
    /// refreshed, and the session is created or refreshed idempotently.
    fn handle_client2server_handshake(
        &mut self,
        dat: HandshakeData,
        size: usize,
        addr: SockAddr,
        now_ms: u64,
        client_map: &mut RemoteMap,
    )
        requires
            old(self).wf(),
            old(client_map).wf(),
            dat.wf(),
        ensures
            final(self).wf(),
            final(client_map).wf(),
            final(self).local() == old(self).local(),
            handshake_post(
                old(self).addr_index(),
                final(self).addr_index(),
                *old(client_map),
                *final(client_map),
                dat.mac_address,
                old(self).local(),
                addr,
                now_ms,
                size as int,
            ),
    {
        if size == 12 {
            return ;
        }
        let mut dat = dat;
        ensure_pseudomac(&mut dat, &addr);
        let mac = dat.mac_address;
        self.addr_to_mac.upsert(addr, mac);
        let entry = BackendData::Udp(
            UdpClient { srv_addr: self.local_addr, last_addr: addr, last_activity: now_ms },
        );
        match client_map.index_of(&mac) {
            Some(i) => {
                let ghost s0seq = client_map.entries_seq();
                let ghost s0 = client_map.as_smap()[mac];
                let (k, mut w) = client_map.take_at(i);
                let _ = w.insert_entry(BackendType::Udp(self.local_addr), entry);
                w.handle_uplink_handshake(dat);
                let ghost wv = w;
                client_map.put_at(i, k, w);
                proof {
                    assert(client_map.entries_seq() =~= s0seq.update(i as int, (mac, wv)));
                    lemma_distinct_update(s0seq, i as int, wv);
                    lemma_as_map_update(s0seq, i as int, wv);
                    assert(client_map.as_smap().dom() =~= old(client_map).as_smap().dom().insert(
                        mac,
                    ));
                }
            },
            None => {
                let mut c = Client::new(&dat);
                c.handle_handshake(dat);
                let mut w = RemoteClientWrapper::Client(c);
                let _ = w.insert_entry(BackendType::Udp(self.local_addr), entry);
                client_map.push_session(mac, w);
                proof {
                    assert(client_map.as_smap().dom() =~= old(client_map).as_smap().dom().insert(
                        mac,
                    ));
                    assert(client_map.as_smap()[mac].sensors_or_empty() =~= Map::<
                        SensorID,
                        Sensor,
                    >::empty());
                }
            },
        }
    }

    /// Actively connects out to a hub at `addr`: derive the
    /// pseudo-identity of the destination, record it in the address index,
    /// create or refresh the hub-facing session, and queue the opening
    /// handshake as its next outgoing packet.  Connecting twice to the
    /// same address resolves to the same identity, so it never creates a
    /// second session.
    pub fn connect_to_server(&mut self, addr: SockAddr, now_ms: u64, client_map: &mut RemoteMap)
        requires
            old(self).wf(),
            old(client_map).wf(),
        ensures
            final(self).wf(),
            final(client_map).wf(),
            final(self).local() == old(self).local(),
            final(self).addr_index() == old(self).addr_index().insert(addr, pseudomac(addr)),
            session_upserted(
                *old(client_map),
                *final(client_map),
                pseudomac(addr),
                old(self).local(),
                addr,
                now_ms,
                false,
                crate::server::spec_encode(initial_handshake_view()),
            ),
    {
        let mac = gen_pseudomac(&addr);
        self.addr_to_mac.upsert(addr, mac);
        let entry = BackendData::Udp(
            UdpClient { srv_addr: self.local_addr, last_addr: addr, last_activity: now_ms },
        );
        match client_map.index_of(&mac) {
            Some(i) => {
                let ghost s0seq = client_map.entries_seq();
                let (k, mut w) = client_map.take_at(i);
                let _ = w.insert_entry(BackendType::Udp(self.local_addr), entry);
                match &mut w {
                    RemoteClientWrapper::Server(s) => s.send_handshake_to_server(),
                    RemoteClientWrapper::Client(_) => {},
                }
                let ghost wv = w;
                client_map.put_at(i, k, w);
                proof {
                    assert(client_map.entries_seq() =~= s0seq.update(i as int, (mac, wv)));
                    lemma_distinct_update(s0seq, i as int, wv);
                    lemma_as_map_update(s0seq, i as int, wv);
                    assert(client_map.as_smap().dom() =~= old(client_map).as_smap().dom().insert(
                        mac,
                    ));
                }
            },
            None => {
                let mut s = Server::new(mac);
                s.send_handshake_to_server();
                let mut w = RemoteClientWrapper::Server(s);
                let _ = w.insert_entry(BackendType::Udp(self.local_addr), entry);
                client_map.push_session(mac, w);
                proof {
                    assert(client_map.as_smap().dom() =~= old(client_map).as_smap().dom().insert(
                        mac,
                    ));
                    assert(client_map.as_smap()[mac].sensors_or_empty() =~= Map::<
                        SensorID,
                        Sensor,
                    >::empty());
                }
            },
        }
    }

    /// Resolves and dispatches one raw datagram.  A datagram from a known
    /// address goes to its session, decoded with the grammar of the
    /// session's role; a datagram from an unknown address is considered
    /// only if it decodes as an uplink handshake, which may create a
    /// session; everything else is silently discarded and changes
    /// nothing.
    pub fn receive_packet(
        &mut self,
        buf: &[u8],
        addr: SockAddr,
        now_ms: u64,
        client_map: &mut RemoteMap,
    )
        requires
            old(self).wf(),
            old(client_map).wf(),
        ensures
            final(self).wf(),
            final(client_map).wf(),
            final(self).local() == old(self).local(),
            ({
                if old(self).addr_index().contains_key(addr) {
                    let mac = old(self).addr_index()[addr];
                    &&& final(self).addr_index() == old(self).addr_index()
                    &&& if old(client_map).as_smap().contains_key(mac) {
                        &&& final(client_map).entries_seq().len() == old(client_map).entries_seq().len()
                        &&& final(client_map).as_smap().dom() == old(client_map).as_smap().dom()
                        &&& (forall|k: MacAddress|
                            k != mac && old(client_map).as_smap().contains_key(k) ==> final(client_map).as_smap()[k] == old(client_map).as_smap()[k])
                        &&& received_transition(
                            old(client_map).as_smap()[mac],
                            final(client_map).as_smap()[mac],
                            buf@,
                            BackendType::Udp(old(self).local()),
                            addr,
                            now_ms,
                        )
                    } else {
                        final(client_map).entries_seq() == old(client_map).entries_seq()
                    }
                } else {
                    match crate::server::spec_parse(buf@) {
                        Some(crate::server::PacketView::Handshake(_, hv)) => handshake_post(
                            old(self).addr_index(),
                            final(self).addr_index(),
                            *old(client_map),
                            *final(client_map),
                            hv.mac_address,
                            old(self).local(),
                            addr,
                            now_ms,
                            buf@.len() as int,
                        ),
                        _ => final(self).addr_index() == old(self).addr_index() && final(client_map).entries_seq() == old(client_map).entries_seq(),
                    }
                }
            }),
    {
        match self.addr_to_mac.find(&addr) {
            Some(mac) => {
                match client_map.index_of(&mac) {
                    Some(i) => {
                        let ghost s0seq = client_map.entries_seq();
                        let (k, mut w) = client_map.take_at(i);
                        let t = BackendType::Udp(self.local_addr);
                        w.handle_incoming(buf, &t, addr, now_ms);
                        let ghost wv = w;
                        client_map.put_at(i, k, w);
                        proof {
                            assert(client_map.entries_seq() =~= s0seq.update(i as int, (mac, wv)));
                            lemma_distinct_update(s0seq, i as int, wv);
                            lemma_as_map_update(s0seq, i as int, wv);
                            assert(client_map.as_smap().dom() =~= old(client_map).as_smap().dom());
                        }
                    },
                    None => {},
                }
            },
            None => {
                match crate::server::parse_slice(buf) {
                    Some(pkt) => match pkt {
                        crate::server::PacketType::Handshake(_, dat) => {
                            self.handle_client2server_handshake(
                                dat,
                                buf.len(),
                                addr,
                                now_ms,
                                client_map,
                            );
                        },
                        _ => {},
                    },
                    None => {},
                }
            },
        }
    }

    /// Everything this listener should send now, as `spec_flush`
    /// describes: for every session with a non-empty queue that this
    /// listener owns (its backend entry exists and records this listener's
    /// own bound address), every queued packet in order, addressed to the
    /// peer's last known address.  The queues themselves are not cleared
    /// here: the control loop clears every queue after all listeners have
    /// flushed.
    pub fn collect_outgoing(&self, client_map: &RemoteMap) -> (r: Vec<(SockAddr, Vec<u8>)>)
        requires
            self.wf(),
            client_map.wf(),
        ensures
            view_pairs(r@) == spec_flush(client_map.entries_seq(), self.local()),
    {
        let mut out: Vec<(SockAddr, Vec<u8>)> = Vec::new();
        let n = client_map.len();
        let mut i: usize = 0;
        proof {
            assert(client_map.entries_seq().subrange(0, 0) =~= Seq::<(
                MacAddress,
                RemoteClientWrapper,
            )>::empty());
            assert(view_pairs(out@) =~= Seq::<(SockAddr, Seq<u8>)>::empty());
        }
        while i < n
            invariant
                self.wf(),
                client_map.wf(),
                n == client_map.entries_seq().len(),
                i <= n,
                view_pairs(out@) == spec_flush(
                    client_map.entries_seq().subrange(0, i as int),
                    self.local(),
                ),
            decreases n - i,
        {
            let ghost pre = out@;
            let w = client_map.wrapper_at(i);
            let outgoing = w.outgoing_packets();
            if outgoing.len() > 0 {
                match self.get_udp_client(w) {
                    Some(u) => {
                        if u.srv_addr == self.local_addr {
                            let dest = u.last_addr;
                            let m = outgoing.len();
                            let mut j: usize = 0;
                            while j < m
                                invariant
                                    m == outgoing@.len(),
                                    j <= m,
                                    outgoing@.map_values(|p: Vec<u8>| p@) == w.spec_outgoing(),
                                    dest == u.last_addr,
                                    view_pairs(out@) == view_pairs(pre) + with_dest(
                                        dest,
                                        w.spec_outgoing().subrange(0, j as int),
                                    ),
                                decreases m - j,
                            {
                                let ghost entry = out@;
                                out.push((dest, clone_bytes(&outgoing[j])));
                                proof {
                                    assert(outgoing@.map_values(|p: Vec<u8>| p@)[j as int]
                                        == outgoing@[j as int]@);
                                    assert(w.spec_outgoing()[j as int] == outgoing@[j as int]@);
                                    let rhs = view_pairs(pre) + with_dest(
                                        dest,
                                        w.spec_outgoing().subrange(0, j + 1),
                                    );
                                    assert(view_pairs(entry).len() == entry.len());
                                    assert(view_pairs(pre).len() == pre.len());
                                    assert(with_dest(
                                        dest,
                                        w.spec_outgoing().subrange(0, j as int),
                                    ).len() == j);
                                    assert(entry.len() == pre.len() + j);
                                    assert forall|k: int|
                                        0 <= k < view_pairs(out@).len() implies view_pairs(out@)[k]
                                        == rhs[k] by {
                                        if k < entry.len() {
                                            assert(out@[k] == entry[k]);
                                            assert(view_pairs(out@)[k] == view_pairs(entry)[k]);
                                            assert(view_pairs(entry)[k] == (view_pairs(pre)
                                                + with_dest(
                                                dest,
                                                w.spec_outgoing().subrange(0, j as int),
                                            ))[k]);
                                            if k >= pre.len() {
                                                assert(w.spec_outgoing().subrange(0, j as int)[k
                                                    - pre.len()] == w.spec_outgoing()[k
                                                    - pre.len()]);
                                                assert(w.spec_outgoing().subrange(0, j + 1)[k
                                                    - pre.len()] == w.spec_outgoing()[k
                                                    - pre.len()]);
                                            }
                                        } else {
                                            assert(out@[k] == (dest, out@[k].1));
                                            assert(view_pairs(out@)[k] == (
                                                dest,
                                                w.spec_outgoing()[j as int],
                                            ));
                                            assert(w.spec_outgoing().subrange(0, j + 1)[j as int]
                                                == w.spec_outgoing()[j as int]);
                                            assert(rhs[k] == (dest, w.spec_outgoing()[j as int]));
                                        }
                                    };
                                    assert(view_pairs(out@) =~= rhs);
                                }
                                j = j + 1;
                            }
                            proof {
                                assert(w.spec_outgoing().subrange(
                                    0,
                                    w.spec_outgoing().len() as int,
                                ) =~= w.spec_outgoing());
                            }
                        }
                    },
                    None => {},
                }
            }
            proof {
                let sub1 = client_map.entries_seq().subrange(0, i + 1);
                assert(sub1.drop_last() =~= client_map.entries_seq().subrange(0, i as int));
                assert(sub1.last() == client_map.entries_seq()[i as int]);
                assert(view_pairs(out@) =~= spec_flush(sub1, self.local()));
            }
            i = i + 1;
        }
        proof {
            assert(client_map.entries_seq().subrange(0, n as int) =~= client_map.entries_seq());
        }
        out
    }
}

/// A fresh copy of one packet's bytes.
fn clone_bytes(v: &Vec<u8>) -> (r: Vec<u8>)
    ensures
        r@ == v@,
{
    let mut r: Vec<u8> = Vec::new();
    let n = v.len();
    let mut i: usize = 0;
    while i < n
        invariant
            n == v@.len(),
            i <= n,
            r@ =~= v@.subrange(0, i as int),
        decreases n - i,
    {
        r.push(v[i]);
        i = i + 1;
    }
    proof {
        assert(v@.subrange(0, n as int) =~= v@);
    }
    r
}

} // verus!
