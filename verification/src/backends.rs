//! Backend keys and backend-specific per-session data.
//!
//! A `BackendType` names one transport instance (for UDP, the listener's
//! own bound local address, so two UDP listeners never collide on the same
//! session).  The per-session data of a backend is a closed tagged union,
//! `BackendData`, so that adding a backend keeps exhaustive-match safety.
//!
//! Timestamps are plain milliseconds on the caller's clock; the session
//! layer never reads a clock itself.

use vstd::prelude::*;

use crate::kv::{as_map, distinct_keys, lemma_as_map_dom, lemma_as_map_index, lemma_as_map_push,
    lemma_as_map_update, lemma_distinct_push, lemma_distinct_update};
use crate::net::SockAddr;

verus! {

/// Milliseconds a peer may stay silent before it counts as dead.
pub const ALIVE_THRESHOLD_MS: u64 = 8000;

/// Key distinguishing transport instances.
#[derive(Clone, Copy, PartialEq, Eq, Structural, Debug)]
pub enum BackendType {
    Udp(SockAddr),
}

/// UDP per-session peer data: the local bound address the session was
/// reached through, the peer's last observed address, and the time of its
/// last activity.
#[derive(Clone, Copy, PartialEq, Eq, Structural, Debug)]
pub struct UdpClient {
    pub srv_addr: SockAddr,
    pub last_addr: SockAddr,
    pub last_activity: u64,
}

impl UdpClient {
    /// Alive at `now_ms` when the last activity is in the past and less
    /// than the threshold ago.
    pub open spec fn alive_at(self, now_ms: u64) -> bool {
        self.last_activity <= now_ms && now_ms - self.last_activity < ALIVE_THRESHOLD_MS
    }

    /// Liveness predicate: alive iff time since last activity is under the
    /// fixed threshold.  A last activity in the future counts as dead.
    pub fn is_alive(&self, now_ms: u64) -> (r: bool)
        ensures
            r == self.alive_at(now_ms),
    {
        self.last_activity <= now_ms && now_ms - self.last_activity < ALIVE_THRESHOLD_MS
    }
}

/// The per-session data of one backend.
#[derive(Clone, Copy, PartialEq, Eq, Structural, Debug)]
pub enum BackendData {
    Udp(UdpClient),
}

/// The UDP backend entry a listener records at a handshake: reached
/// through the listener's bound address, peer last seen at `addr`, active
/// now.
pub open spec fn udp_entry(local: SockAddr, addr: SockAddr, now_ms: u64) -> BackendData {
    BackendData::Udp(UdpClient { srv_addr: local, last_addr: addr, last_activity: now_ms })
}

/// A backend table after an insertion attempt: a fresh entry for the key,
/// or, when the key is already present, the table unchanged (the duplicate
/// reports `AlreadyExists` and nothing mutates).
pub open spec fn bdata_after_insert(
    b: Map<BackendType, BackendData>,
    t: BackendType,
    d: BackendData,
) -> Map<BackendType, BackendData> {
    if b.contains_key(t) {
        b
    } else {
        b.insert(t, d)
    }
}

/// A backend table after a datagram: the listener's entry, if any,
/// records the sender's address and the current time; its local bound
/// address stays.
pub open spec fn bdata_after_touch(
    b: Map<BackendType, BackendData>,
    t: BackendType,
    addr: SockAddr,
    now_ms: u64,
) -> Map<BackendType, BackendData> {
    if b.contains_key(t) {
        match b[t] {
            BackendData::Udp(u) => b.insert(
                t,
                BackendData::Udp(
                    UdpClient { srv_addr: u.srv_addr, last_addr: addr, last_activity: now_ms },
                ),
            ),
        }
    } else {
        b
    }
}

/// Duplicate insertion into a session's backend-data table.
#[derive(Clone, Copy, PartialEq, Eq, Structural, Debug)]
pub enum BDataInsertionFailure {
    AlreadyExists,
}

/// A session's backend-data table: at most one entry per `BackendType`.
#[derive(Clone, PartialEq, Eq, Debug)]
pub struct BDataMap {
    entries: Vec<(BackendType, BackendData)>,
}

impl BDataMap {
    /// The table as the sequence of its entries, in insertion order.
    pub closed spec fn entries_seq(&self) -> Seq<(BackendType, BackendData)> {
        self.entries@
    }

    /// The table as a map.
    pub open spec fn as_bmap(&self) -> Map<BackendType, BackendData> {
        as_map(self.entries_seq())
    }

    /// Each backend type appears at most once.
    pub open spec fn wf(&self) -> bool {
        distinct_keys(self.entries_seq())
    }

    /// An empty table.
    pub fn new() -> (r: BDataMap)
        ensures
            r.wf(),
            r.as_bmap() == Map::<BackendType, BackendData>::empty(),
    {
        BDataMap { entries: Vec::new() }
    }

    /// The entry of one backend type, if present.
    pub fn find(&self, t: &BackendType) -> (r: Option<&BackendData>)
        requires
            self.wf(),
        ensures
            match r {
                Some(d) => self.as_bmap().contains_key(*t) && *d == self.as_bmap()[*t],
                None => !self.as_bmap().contains_key(*t),
            },
    {
        let n = self.entries.len();
        let mut i: usize = 0;
        while i < n
            invariant
                n == self.entries_seq().len(),
                i <= n,
                self.wf(),
                forall|j: int| 0 <= j < i ==> (#[trigger] self.entries_seq()[j]).0 != *t,
            decreases n - i,
        {
            if self.entries[i].0 == *t {
                proof {
                    lemma_as_map_index(self.entries_seq(), i as int);
                }
                return Some(&self.entries[i].1);
            }
            i = i + 1;
        }
        proof {
            lemma_as_map_dom(self.entries_seq(), *t);
        }
        None
    }

    /// Inserts an entry for a backend type not yet present; a duplicate
    /// insertion reports `AlreadyExists` and mutates nothing.
    pub fn insert(&mut self, t: BackendType, d: BackendData) -> (r: Result<
        (),
        BDataInsertionFailure,
    >)
        requires
            old(self).wf(),
        ensures
            final(self).wf(),
            match r {
                Ok(_) => !old(self).as_bmap().contains_key(t) && final(self).as_bmap() == old(
                    self,
                ).as_bmap().insert(t, d),
                Err(_) => old(self).as_bmap().contains_key(t) && *final(self) == *old(self),
            },
    {
        let n = self.entries.len();
        let mut i: usize = 0;
        while i < n
            invariant
                n == self.entries_seq().len(),
                i <= n,
                self.wf(),
                *self == *old(self),
                forall|j: int| 0 <= j < i ==> (#[trigger] self.entries_seq()[j]).0 != t,
            decreases n - i,
        {
            if self.entries[i].0 == t {
                proof {
                    lemma_as_map_index(self.entries_seq(), i as int);
                }
                return Err(BDataInsertionFailure::AlreadyExists);
            }
            i = i + 1;
        }
        proof {
            lemma_as_map_dom(self.entries_seq(), t);
            lemma_as_map_push(self.entries_seq(), t, d);
            lemma_distinct_push(self.entries_seq(), t, d);
        }
        self.entries.push((t, d));
        Ok(())
    }

    /// Overwrites the entry of a backend type already present; reports
    /// whether one was.
    pub fn update(&mut self, t: &BackendType, d: BackendData) -> (r: bool)
        requires
            old(self).wf(),
        ensures
            final(self).wf(),
            r == old(self).as_bmap().contains_key(*t),
            r ==> final(self).as_bmap() == old(self).as_bmap().insert(*t, d),
            !r ==> *final(self) == *old(self),
    {
        let n = self.entries.len();
        let mut i: usize = 0;
        while i < n
            invariant
                n == self.entries_seq().len(),
                i <= n,
                self.wf(),
                *self == *old(self),
                forall|j: int| 0 <= j < i ==> (#[trigger] self.entries_seq()[j]).0 != *t,
            decreases n - i,
        {
            if self.entries[i].0 == *t {
                proof {
                    lemma_as_map_index(self.entries_seq(), i as int);
                    lemma_as_map_update(self.entries_seq(), i as int, d);
                    lemma_distinct_update(self.entries_seq(), i as int, d);
                }
                self.entries.set(i, (*t, d));
                return true;
            }
            i = i + 1;
        }
        proof {
            lemma_as_map_dom(self.entries_seq(), *t);
        }
        false
    }
}

} // verus!
