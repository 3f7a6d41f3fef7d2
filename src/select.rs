//! The device selection cache: a snapshot of the UUIDs of mounted devices,
//! refreshed from the store when it is older than its time to live.

use vstd::prelude::*;

use crate::device::{candidates_spec, DeviceModel, Device, DeviceTable};
use crate::text::opt_view;

verus! {

/// Why no device could be chosen for a placement; the caller may retry.
#[derive(Debug, Clone, Copy, PartialEq, Eq, Structural)]
pub enum CacheError {
    NoUsableDevice,
}

/// The UUIDs of the records marked mounted, in order.
pub open spec fn mounted_uuids(rows: Seq<DeviceModel>) -> Seq<Seq<char>>
    decreases rows.len(),
{
    if rows.len() == 0 {
        Seq::empty()
    } else {
        let last = rows.last();
        if last.mount_success && last.uuid is Some {
            mounted_uuids(rows.drop_last()).push(last.uuid->0)
        } else {
            mounted_uuids(rows.drop_last())
        }
    }
}

pub ghost struct CacheModel {
    pub uuids: Seq<Seq<char>>,
    /// When the snapshot was taken; `None` before the first refresh.
    pub stamp: Option<int>,
    pub ttl: int,
}

/// Time since `stamp`, never negative.
pub open spec fn elapsed(stamp: int, now: int) -> int {
    if now >= stamp {
        now - stamp
    } else {
        0
    }
}

/// The snapshot is younger than the time to live and holds a device.
pub open spec fn serves(c: CacheModel, now: int) -> bool {
    c.stamp is Some && elapsed(c.stamp->0, now) < c.ttl && c.uuids.len() > 0
}

/// The entry chosen by the cheap pseudo-random number `nonce`.
pub open spec fn pick_spec(uuids: Seq<Seq<char>>, nonce: int) -> Seq<char> {
    uuids[nonce % (uuids.len() as int)]
}

/// The cache after a refresh at `now` from the store rows `rows`.
pub open spec fn refreshed(c: CacheModel, rows: Seq<DeviceModel>, now: int) -> CacheModel {
    CacheModel { uuids: mounted_uuids(rows), stamp: Some(now), ttl: c.ttl }
}

pub open spec fn choice_spec(uuids: Seq<Seq<char>>, nonce: int) -> Result<Seq<char>, CacheError> {
    if uuids.len() == 0 {
        Err(CacheError::NoUsableDevice)
    } else {
        Ok(pick_spec(uuids, nonce))
    }
}

/// The cache after one selection at `now` against store `t`.
pub open spec fn select_state(c: CacheModel, t: Seq<DeviceModel>, now: int) -> CacheModel {
    if serves(c, now) {
        c
    } else {
        refreshed(c, candidates_spec(t), now)
    }
}

pub open spec fn result_view(r: Result<String, CacheError>) -> Result<Seq<char>, CacheError> {
    match r {
        Ok(u) => Ok(u@),
        Err(e) => Err(e),
    }
}

/// A snapshot of usable device UUIDs with the time it was taken, in
/// milliseconds of a monotonic clock.
#[derive(Debug)]
pub struct DeviceUuidCache {
    uuids: Vec<String>,
    stamp: Option<u64>,
    ttl_ms: u64,
}

impl View for DeviceUuidCache {
    type V = CacheModel;

    closed spec fn view(&self) -> CacheModel {
        CacheModel {
            uuids: self.uuids@.map_values(|s: String| s@),
            stamp: match self.stamp {
                Some(s) => Some(s as int),
                None => None,
            },
            ttl: self.ttl_ms as int,
        }
    }
}

impl DeviceUuidCache {
    /// An empty cache whose snapshots live `ttl_ms` milliseconds.
    pub fn new(ttl_ms: u64) -> (r: Self)
        ensures
            r@.uuids.len() == 0,
            r@.stamp is None,
            r@.ttl == ttl_ms,
    {
        DeviceUuidCache { uuids: Vec::new(), stamp: None, ttl_ms }
    }

    /// The cached choice at `now`, if the snapshot is fresh and not empty.
    pub fn select_cached(&self, now: u64, nonce: u64) -> (r: Option<String>)
        ensures
            serves(self@, now as int) ==> opt_view(r) == Some(pick_spec(self@.uuids, nonce as int)),
            !serves(self@, now as int) ==> r is None,
    {
        match self.stamp {
            Some(stamp) => {
                let age = if now >= stamp {
                    now - stamp
                } else {
                    0
                };
                if age < self.ttl_ms && self.uuids.len() > 0 {
                    let k = (nonce % (self.uuids.len() as u64)) as usize;
                    Some(self.uuids[k].clone())
                } else {
                    None
                }
            },
            None => None,
        }
    }

    /// Replaces the snapshot by the UUIDs of the mounted records among
    /// `rows`, taken at `now`, and chooses one of them.
    pub fn refresh_from(&mut self, rows: &Vec<Device>, now: u64, nonce: u64) -> (r: Result<
        String,
        CacheError,
    >)
        ensures
            final(self)@ == refreshed(old(self)@, rows@.map_values(|x: Device| x@), now as int),
            result_view(r) == choice_spec(final(self)@.uuids, nonce as int),
    {
        let ghost rv = rows@.map_values(|x: Device| x@);
        let n = rows.len();
        let mut fresh: Vec<String> = Vec::new();
        let mut i: usize = 0;
        while i < n
            invariant
                n == rv.len(),
                rv == rows@.map_values(|x: Device| x@),
                0 <= i <= n,
                fresh@.map_values(|s: String| s@) == mounted_uuids(rv.take(i as int)),
            decreases n - i,
        {
            proof {
                assert(rv.take(i as int + 1).drop_last() =~= rv.take(i as int));
                assert(rv.take(i as int + 1).last() == rv[i as int]);
            }
            let row = &rows[i];
            assert(row@ == rv[i as int]);
            if row.mount_success {
                match &row.uuid {
                    Some(u) => {
                        let ghost before = fresh@.map_values(|s: String| s@);
                        fresh.push(u.clone());
                        assert(fresh@.map_values(|s: String| s@) =~= before.push(u@));
                    },
                    None => {},
                }
            }
            i += 1;
        }
        assert(rv.take(n as int) =~= rv);
        self.uuids = fresh;
        self.stamp = Some(now);
        let len = self.uuids.len();
        if len == 0 {
            Err(CacheError::NoUsableDevice)
        } else {
            let k = (nonce % (len as u64)) as usize;
            Ok(self.uuids[k].clone())
        }
    }

    /// Chooses a mounted device for a placement at `now`: from the snapshot
    /// while it is fresh and not empty, otherwise after refreshing it from
    /// the store's present, admitted records. Fails when no device is usable.
    pub fn get_or_fetch(&mut self, store: &DeviceTable, now: u64, nonce: u64) -> (r: Result<
        String,
        CacheError,
    >)
        ensures
            final(self)@ == select_state(old(self)@, store@, now as int),
            result_view(r) == choice_spec(final(self)@.uuids, nonce as int),
    {
        match self.select_cached(now, nonce) {
            Some(u) => Ok(u),
            None => {
                let rows = store.list_joined_active();
                self.refresh_from(&rows, now, nonce)
            },
        }
    }
}

/// The cache after selections at each of `times` in turn, against store `t`.
pub open spec fn select_all(c: CacheModel, t: Seq<DeviceModel>, times: Seq<int>) -> CacheModel
    decreases times.len(),
{
    if times.len() == 0 {
        c
    } else {
        select_state(select_all(c, t, times.drop_last()), t, times.last())
    }
}

/// Once a refresh at `t0` has found a mounted device, selections at any
/// times within the time to live after `t0` query the store no more: the
/// snapshot and its time stay as they are, whatever the store holds then.
pub proof fn lemma_no_query_within_ttl(c: CacheModel, t: Seq<DeviceModel>, t0: int, later: Seq<DeviceModel>, times: Seq<int>)
    requires
        mounted_uuids(candidates_spec(t)).len() > 0,
        !serves(c, t0),
        forall|k: int| 0 <= k < times.len() ==> t0 <= #[trigger] times[k] < t0 + c.ttl,
    ensures
        select_all(select_state(c, t, t0), later, times) == select_state(c, t, t0),
        forall|k: int| 0 <= k < times.len() ==> serves(select_state(c, t, t0), #[trigger] times[k]),
    decreases times.len(),
{
    if times.len() > 0 {
        lemma_no_query_within_ttl(c, t, t0, later, times.drop_last());
        assert(times.drop_last().len() < times.len());
        assert forall|k: int| 0 <= k < times.len() implies serves(select_state(c, t, t0), #[trigger] times[k]) by {
        }
    }
}

/// A selection at or after the end of the time to live refreshes the
/// snapshot, once: the next selections within the new time to live do not,
/// provided the refresh found a mounted device.
pub proof fn lemma_refresh_once_after_ttl(c: CacheModel, t: Seq<DeviceModel>, now: int, later: Seq<DeviceModel>, times: Seq<int>)
    requires
        c.stamp is Some,
        now >= c.stamp->0 + c.ttl,
        mounted_uuids(candidates_spec(t)).len() > 0,
        forall|k: int| 0 <= k < times.len() ==> now <= #[trigger] times[k] < now + c.ttl,
    ensures
        !serves(c, now),
        select_state(c, t, now) == refreshed(c, candidates_spec(t), now),
        select_all(select_state(c, t, now), later, times) == select_state(c, t, now),
{
    lemma_no_query_within_ttl(c, t, now, later, times);
}

} // verus!
