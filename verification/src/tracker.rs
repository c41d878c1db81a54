//! Decoded sensor state of one device-facing session.
//!
//! A device may carry several sensors; the tracker keeps, per sensor index,
//! the last orientation quaternion it reported, plus the time of the last
//! packet seen from the device.

use vstd::prelude::*;

use crate::kv::{as_map, distinct_keys, lemma_as_map_dom, lemma_as_map_index, lemma_as_map_push,
    lemma_as_map_update, lemma_distinct_push, lemma_distinct_update};
use crate::types::{Quaternion, SensorID};

verus! {

/// One sensor channel: its last known orientation.
#[derive(Clone, Copy, PartialEq, Eq, Structural, Debug)]
pub struct Sensor {
    pub last_quat: Quaternion,
}

impl Default for Sensor {
    /// A sensor starts from the all-zero quaternion bit pattern.
    fn default() -> (r: Sensor)
        ensures
            r == (Sensor { last_quat: Quaternion { x: 0, y: 0, z: 0, w: 0 } }),
    {
        Sensor { last_quat: Quaternion { x: 0, y: 0, z: 0, w: 0 } }
    }
}

/// Per-session sensor state: sensor index to last known orientation, plus
/// the heartbeat timestamp (milliseconds on the caller's clock).
#[derive(Clone, PartialEq, Eq, Debug)]
pub struct TrackerData {
    sensors: Vec<(SensorID, Sensor)>,
    pub last_heartbeat: u64,
}

impl TrackerData {
    /// The heartbeat timestamp, for contracts.
    pub closed spec fn heartbeat(&self) -> u64 {
        self.last_heartbeat
    }

    /// The sensor table as the sequence of its entries, in insertion order.
    pub closed spec fn sensors_seq(&self) -> Seq<(SensorID, Sensor)> {
        self.sensors@
    }

    /// The sensor table as a map.
    pub open spec fn sensors_map(&self) -> Map<SensorID, Sensor> {
        as_map(self.sensors_seq())
    }

    /// Each sensor index appears at most once.
    pub open spec fn wf(&self) -> bool {
        distinct_keys(self.sensors_seq())
    }

    /// Refreshes the heartbeat timestamp; sensor state stays.
    pub fn set_heartbeat(&mut self, now_ms: u64)
        ensures
            final(self).heartbeat() == now_ms,
            final(self).sensors_seq() == old(self).sensors_seq(),
            final(self).wf() == old(self).wf(),
    {
        self.last_heartbeat = now_ms;
    }

    /// The number of sensors seen so far.
    pub fn sensors_len(&self) -> (r: usize)
        ensures
            r == self.sensors_seq().len(),
    {
        self.sensors.len()
    }

    /// The entry at position `i`, in insertion order.
    pub fn sensor_at(&self, i: usize) -> (r: (SensorID, Sensor))
        requires
            i < self.sensors_seq().len(),
        ensures
            r == self.sensors_seq()[i as int],
    {
        self.sensors[i]
    }

    /// The last known orientation of one sensor, if it has reported.
    pub fn get_sensor(&self, id: SensorID) -> (r: Option<&Sensor>)
        requires
            self.wf(),
        ensures
            match r {
                Some(s) => self.sensors_map().contains_key(id) && *s == self.sensors_map()[id],
                None => !self.sensors_map().contains_key(id),
            },
    {
        let n = self.sensors.len();
        let mut i: usize = 0;
        while i < n
            invariant
                n == self.sensors_seq().len(),
                i <= n,
                self.wf(),
                forall|j: int| 0 <= j < i ==> (#[trigger] self.sensors_seq()[j]).0 != id,
            decreases n - i,
        {
            if self.sensors[i].0 == id {
                proof {
                    lemma_as_map_index(self.sensors_seq(), i as int);
                }
                return Some(&self.sensors[i].1);
            }
            i = i + 1;
        }
        proof {
            lemma_as_map_dom(self.sensors_seq(), id);
        }
        None
    }

    /// Records the last known orientation of one sensor: an existing entry
    /// is overwritten in place, a new sensor index is appended.  The table
    /// grows only when the index is new.
    pub fn update_rotation(&mut self, id: SensorID, quat: Quaternion)
        requires
            old(self).wf(),
        ensures
            final(self).wf(),
            final(self).sensors_map() == old(self).sensors_map().insert(
                id,
                Sensor { last_quat: quat },
            ),
            final(self).sensors_seq().len() == if old(self).sensors_map().contains_key(id) {
                old(self).sensors_seq().len()
            } else {
                old(self).sensors_seq().len() + 1
            },
            final(self).heartbeat() == old(self).heartbeat(),
    {
        let n = self.sensors.len();
        let mut i: usize = 0;
        while i < n
            invariant
                n == self.sensors_seq().len(),
                i <= n,
                self.wf(),
                *self == *old(self),
                forall|j: int| 0 <= j < i ==> (#[trigger] self.sensors_seq()[j]).0 != id,
            decreases n - i,
        {
            if self.sensors[i].0 == id {
                proof {
                    lemma_as_map_index(self.sensors_seq(), i as int);
                    lemma_as_map_update(self.sensors_seq(), i as int, Sensor { last_quat: quat });
                    lemma_distinct_update(self.sensors_seq(), i as int, Sensor { last_quat: quat });
                }
                self.sensors.set(i, (id, Sensor { last_quat: quat }));
                return ;
            }
            i = i + 1;
        }
        proof {
            lemma_as_map_dom(self.sensors_seq(), id);
            lemma_as_map_push(self.sensors_seq(), id, Sensor { last_quat: quat });
            lemma_distinct_push(self.sensors_seq(), id, Sensor { last_quat: quat });
        }
        self.sensors.push((id, Sensor { last_quat: quat }));
    }
}

impl Default for TrackerData {
    /// No sensors yet; the heartbeat clock starts at zero and is refreshed
    /// by the first packet received.
    fn default() -> (r: TrackerData)
        ensures
            r.wf(),
            r.sensors_map() == Map::<SensorID, Sensor>::empty(),
            r.sensors_seq().len() == 0,
            r.heartbeat() == 0,
    {
        TrackerData { sensors: Vec::new(), last_heartbeat: 0 }
    }
}

} // verus!
