//! The device store: one record per device ever seen, keyed by filesystem
//! UUID, changed only by whole-record conditional updates.

use vstd::prelude::*;

use crate::text::{copy_opt, opt_is, opt_view, same_text};

verus! {

/// What is known of one device.
#[derive(Debug)]
pub struct Device {
    /// The device node the device was last seen at; not a stable identity.
    pub devnode: String,
    /// The filesystem UUID, the stable identity of the device.
    pub uuid: Option<String>,
    /// The last hotplug event for this device was a removal.
    pub removed: bool,
    /// The device was admitted: only admitted devices are mounted.
    pub joined: bool,
    /// The device was seen mounted at `mount_path`.
    pub mount_success: bool,
    pub mount_path: Option<String>,
    /// When the record last changed, in seconds since the epoch.
    pub last_seen: i64,
}

/// The mathematical value of a [`Device`].
pub ghost struct DeviceModel {
    pub devnode: Seq<char>,
    pub uuid: Option<Seq<char>>,
    pub removed: bool,
    pub joined: bool,
    pub mount_success: bool,
    pub mount_path: Option<Seq<char>>,
    pub last_seen: int,
}

impl View for Device {
    type V = DeviceModel;

    open spec fn view(&self) -> DeviceModel {
        DeviceModel {
            devnode: self.devnode@,
            uuid: opt_view(self.uuid),
            removed: self.removed,
            joined: self.joined,
            mount_success: self.mount_success,
            mount_path: opt_view(self.mount_path),
            last_seen: self.last_seen as int,
        }
    }
}

impl Device {
    /// A copy of the record.
    pub fn duplicate(&self) -> (r: Device)
        ensures
            r@ == self@,
    {
        Device {
            devnode: self.devnode.clone(),
            uuid: copy_opt(&self.uuid),
            removed: self.removed,
            joined: self.joined,
            mount_success: self.mount_success,
            mount_path: copy_opt(&self.mount_path),
            last_seen: self.last_seen,
        }
    }
}

/// No two records carry the same UUID.
pub open spec fn uuids_unique(t: Seq<DeviceModel>) -> bool {
    forall|i: int, j: int|
        0 <= i < t.len() && 0 <= j < t.len() && i != j && (#[trigger] t[i]).uuid is Some ==> t[i].uuid
            != (#[trigger] t[j]).uuid
}

/// A record marked mounted names the path it is mounted at.
pub open spec fn mounted_have_paths(t: Seq<DeviceModel>) -> bool {
    forall|i: int| 0 <= i < t.len() && (#[trigger] t[i]).mount_success ==> t[i].mount_path is Some
}

pub open spec fn table_wf(t: Seq<DeviceModel>) -> bool {
    uuids_unique(t) && mounted_have_paths(t)
}

pub open spec fn knows_uuid(t: Seq<DeviceModel>, u: Seq<char>) -> bool {
    exists|i: int| 0 <= i < t.len() && (#[trigger] t[i]).uuid == Some(u)
}

/// The record of a device seen for the first time: not admitted, not mounted.
pub open spec fn discovered(d: Seq<char>, u: Seq<char>, now: int) -> DeviceModel {
    DeviceModel {
        devnode: d,
        uuid: Some(u),
        removed: false,
        joined: false,
        mount_success: false,
        mount_path: None,
        last_seen: now,
    }
}

/// A known device seen again, possibly at another device node.
pub open spec fn rediscovered(r: DeviceModel, d: Seq<char>, now: int) -> DeviceModel {
    DeviceModel { devnode: d, removed: false, last_seen: now, ..r }
}

pub open spec fn gone(r: DeviceModel, now: int) -> DeviceModel {
    DeviceModel { removed: true, mount_success: false, last_seen: now, ..r }
}

pub open spec fn mounted_at(r: DeviceModel, p: Seq<char>) -> DeviceModel {
    DeviceModel { mount_success: true, mount_path: Some(p), ..r }
}

pub open spec fn admitted(r: DeviceModel, j: bool) -> DeviceModel {
    DeviceModel { joined: j, ..r }
}

/// The store after device `u` was reported at node `d`.
pub open spec fn upsert_spec(t: Seq<DeviceModel>, d: Seq<char>, u: Seq<char>, now: int) -> Seq<
    DeviceModel,
> {
    if knows_uuid(t, u) {
        t.map_values(
            |r: DeviceModel|
                if r.uuid == Some(u) {
                    rediscovered(r, d, now)
                } else {
                    r
                },
        )
    } else {
        t.push(discovered(d, u, now))
    }
}

/// The store after node `d` was reported removed.
pub open spec fn removed_spec(t: Seq<DeviceModel>, d: Seq<char>, now: int) -> Seq<DeviceModel> {
    t.map_values(
        |r: DeviceModel|
            if r.devnode == d {
                gone(r, now)
            } else {
                r
            },
    )
}

/// The store after device `u` at node `d` was seen mounted at `p`.
pub open spec fn mount_result_spec(t: Seq<DeviceModel>, d: Seq<char>, p: Seq<char>, u: Seq<char>) -> Seq<
    DeviceModel,
> {
    t.map_values(
        |r: DeviceModel|
            if r.devnode == d && r.uuid == Some(u) {
                mounted_at(r, p)
            } else {
                r
            },
    )
}

/// The store after the admission of device `u` was set to `j`.
pub open spec fn joined_spec(t: Seq<DeviceModel>, u: Seq<char>, j: bool) -> Seq<DeviceModel> {
    t.map_values(
        |r: DeviceModel|
            if r.uuid == Some(u) {
                admitted(r, j)
            } else {
                r
            },
    )
}

/// A record that a reconciliation pass may mount: present and admitted.
pub open spec fn is_candidate(r: DeviceModel) -> bool {
    !r.removed && r.joined
}

/// The records that may be mounted, in store order.
pub open spec fn candidates_spec(t: Seq<DeviceModel>) -> Seq<DeviceModel>
    decreases t.len(),
{
    if t.len() == 0 {
        t
    } else if is_candidate(t.last()) {
        candidates_spec(t.drop_last()).push(t.last())
    } else {
        candidates_spec(t.drop_last())
    }
}

/// A record whose device can take uploads: present, admitted, mounted, identified.
pub open spec fn is_active(r: DeviceModel) -> bool {
    !r.removed && r.joined && r.mount_success && r.uuid is Some
}

/// The UUID of the first active record, if any.
pub open spec fn first_active_spec(t: Seq<DeviceModel>, res: Option<Seq<char>>) -> bool {
    match res {
        None => forall|i: int| 0 <= i < t.len() ==> !is_active(#[trigger] t[i]),
        Some(u) => exists|i: int|
            0 <= i < t.len() && is_active(#[trigger] t[i]) && t[i].uuid == Some(u) && forall|j: int|
                0 <= j < i ==> !is_active(#[trigger] t[j]),
    }
}

/// The device store held in memory.
#[derive(Debug)]
pub struct DeviceTable {
    records: Vec<Device>,
}

impl View for DeviceTable {
    type V = Seq<DeviceModel>;

    closed spec fn view(&self) -> Seq<DeviceModel> {
        self.records@.map_values(|r: Device| r@)
    }
}

impl DeviceTable {
    /// Every store keeps UUIDs unique and mounted records with paths.
    #[verifier::type_invariant]
    pub open spec fn wf(&self) -> bool {
        table_wf(self@)
    }

    /// An empty store.
    pub fn new() -> (r: Self)
        ensures
            r@ == Seq::<DeviceModel>::empty(),
            r.wf(),
    {
        let r = DeviceTable { records: Vec::new() };
        assert(r@ =~= Seq::<DeviceModel>::empty());
        r
    }

    /// The number of records.
    pub fn len(&self) -> (r: usize)
        ensures
            r == self@.len(),
    {
        self.records.len()
    }

    /// A copy of the record at `i`.
    pub fn get(&self, i: usize) -> (r: Device)
        requires
            i < self@.len(),
        ensures
            r@ == self@[i as int],
    {
        self.records[i].duplicate()
    }

    /// Records that device `uuid` was reported at node `devnode`: a known
    /// device gets the new node and is present again, keeping its admission
    /// and mount state; an unknown one is added, not admitted and not mounted.
    pub fn upsert_device(&mut self, devnode: &str, uuid: &str, ts: i64)
        ensures
            final(self)@ == upsert_spec(old(self)@, devnode@, uuid@, ts as int),
            final(self).wf(),
    {
        proof {
            use_type_invariant(&*self);
        }
        // the records are updated out of place and put back whole, where the
        // store's invariant is checked once
        let ghost t0 = self@;
        let mut recs: Vec<Device> = Vec::new();
        std::mem::swap(&mut self.records, &mut recs);
        assert(recs@.map_values(|r: Device| r@) == t0);
        let n = recs.len();
        let mut found = false;
        let mut i: usize = 0;
        while i < n
            invariant
                n == recs@.len(),
                n == t0.len(),
                0 <= i <= n,
                t0 == old(self)@,
                forall|j: int|
                    0 <= j < i ==> (#[trigger] recs@[j])@ == (if t0[j].uuid == Some(uuid@) {
                        rediscovered(t0[j], devnode@, ts as int)
                    } else {
                        t0[j]
                    }),
                forall|j: int| i <= j < n ==> (#[trigger] recs@[j])@ == t0[j],
                found == exists|j: int| 0 <= j < i && (#[trigger] t0[j]).uuid == Some(uuid@),
            decreases n - i,
        {
            if opt_is(&recs[i].uuid, uuid) {
                recs[i].devnode = devnode.to_owned();
                recs[i].removed = false;
                recs[i].last_seen = ts;
                found = true;
            }
            i += 1;
        }
        if !found {
            recs.push(
                Device {
                    devnode: devnode.to_owned(),
                    uuid: Some(uuid.to_owned()),
                    removed: false,
                    joined: false,
                    mount_success: false,
                    mount_path: None,
                    last_seen: ts,
                },
            );
        }
        assert(recs@.map_values(|r: Device| r@) =~= upsert_spec(t0, devnode@, uuid@, ts as int));
        self.records = recs;
    }

    /// Marks every record at node `devnode` removed and not mounted; a node
    /// that no record names leaves the store as it is.
    pub fn mark_removed(&mut self, devnode: &str, ts: i64)
        ensures
            final(self)@ == removed_spec(old(self)@, devnode@, ts as int),
            final(self).wf(),
    {
        proof {
            use_type_invariant(&*self);
        }
        let ghost t0 = self@;
        let mut recs: Vec<Device> = Vec::new();
        std::mem::swap(&mut self.records, &mut recs);
        assert(recs@.map_values(|r: Device| r@) == t0);
        let n = recs.len();
        let mut i: usize = 0;
        while i < n
            invariant
                n == recs@.len(),
                n == t0.len(),
                0 <= i <= n,
                t0 == old(self)@,
                forall|j: int|
                    0 <= j < i ==> (#[trigger] recs@[j])@ == (if t0[j].devnode == devnode@ {
                        gone(t0[j], ts as int)
                    } else {
                        t0[j]
                    }),
                forall|j: int| i <= j < n ==> (#[trigger] recs@[j])@ == t0[j],
            decreases n - i,
        {
            if same_text(recs[i].devnode.as_str(), devnode) {
                recs[i].removed = true;
                recs[i].mount_success = false;
                recs[i].last_seen = ts;
            }
            i += 1;
        }
        assert(recs@.map_values(|r: Device| r@) =~= removed_spec(t0, devnode@, ts as int));
        self.records = recs;
    }

    /// Records that device `uuid` at node `devnode` was seen mounted at
    /// `mount_path`. A record whose node or UUID differs is left as it is.
    pub fn update_mount_result(&mut self, devnode: &str, mount_path: &str, uuid: &str)
        ensures
            final(self)@ == mount_result_spec(old(self)@, devnode@, mount_path@, uuid@),
            final(self).wf(),
    {
        proof {
            use_type_invariant(&*self);
        }
        let ghost t0 = self@;
        let mut recs: Vec<Device> = Vec::new();
        std::mem::swap(&mut self.records, &mut recs);
        assert(recs@.map_values(|r: Device| r@) == t0);
        let n = recs.len();
        let mut i: usize = 0;
        while i < n
            invariant
                n == recs@.len(),
                n == t0.len(),
                0 <= i <= n,
                t0 == old(self)@,
                forall|j: int|
                    0 <= j < i ==> (#[trigger] recs@[j])@ == (if t0[j].devnode == devnode@
                        && t0[j].uuid == Some(uuid@) {
                        mounted_at(t0[j], mount_path@)
                    } else {
                        t0[j]
                    }),
                forall|j: int| i <= j < n ==> (#[trigger] recs@[j])@ == t0[j],
            decreases n - i,
        {
            if same_text(recs[i].devnode.as_str(), devnode) && opt_is(
                &recs[i].uuid,
                uuid,
            ) {
                recs[i].mount_path = Some(mount_path.to_owned());
                recs[i].mount_success = true;
            }
            i += 1;
        }
        assert(recs@.map_values(|r: Device| r@) =~= mount_result_spec(t0, devnode@, mount_path@, uuid@));
        self.records = recs;
    }

    /// Records a device found already mounted; the same update as a mount
    /// that succeeded.
    pub fn mark_mounted_existing(&mut self, devnode: &str, mount_path: &str, uuid: &str)
        ensures
            final(self)@ == mount_result_spec(old(self)@, devnode@, mount_path@, uuid@),
            final(self).wf(),
    {
        self.update_mount_result(devnode, mount_path, uuid)
    }

    /// Admits device `uuid` (or withdraws its admission). Returns whether a
    /// record carries that UUID.
    pub fn set_joined(&mut self, uuid: &str, joined: bool) -> (r: bool)
        ensures
            final(self)@ == joined_spec(old(self)@, uuid@, joined),
            r == knows_uuid(old(self)@, uuid@),
            final(self).wf(),
    {
        proof {
            use_type_invariant(&*self);
        }
        let ghost t0 = self@;
        let mut recs: Vec<Device> = Vec::new();
        std::mem::swap(&mut self.records, &mut recs);
        assert(recs@.map_values(|r: Device| r@) == t0);
        let n = recs.len();
        let mut found = false;
        let mut i: usize = 0;
        while i < n
            invariant
                n == recs@.len(),
                n == t0.len(),
                0 <= i <= n,
                t0 == old(self)@,
                forall|j: int|
                    0 <= j < i ==> (#[trigger] recs@[j])@ == (if t0[j].uuid == Some(uuid@) {
                        admitted(t0[j], joined)
                    } else {
                        t0[j]
                    }),
                forall|j: int| i <= j < n ==> (#[trigger] recs@[j])@ == t0[j],
                found == exists|j: int| 0 <= j < i && (#[trigger] t0[j]).uuid == Some(uuid@),
            decreases n - i,
        {
            if opt_is(&recs[i].uuid, uuid) {
                recs[i].joined = joined;
                found = true;
            }
            i += 1;
        }
        assert(recs@.map_values(|r: Device| r@) =~= joined_spec(t0, uuid@, joined));
        self.records = recs;
        found
    }

    /// The present, admitted records, in store order.
    pub fn list_joined_active(&self) -> (r: Vec<Device>)
        ensures
            r@.map_values(|x: Device| x@) == candidates_spec(self@),
    {
        let n = self.records.len();
        let mut out: Vec<Device> = Vec::new();
        let mut i: usize = 0;
        while i < n
            invariant
                n == self@.len(),
                0 <= i <= n,
                out@.map_values(|x: Device| x@) == candidates_spec(self@.take(i as int)),
            decreases n - i,
        {
            let ghost before = out@.map_values(|x: Device| x@);
            proof {
                assert(self@.take(i as int + 1).drop_last() =~= self@.take(i as int));
                assert(self@.take(i as int + 1).last() == self@[i as int]);
            }
            let r = &self.records[i];
            if r.joined && !r.removed {
                out.push(r.duplicate());
                assert(out@.map_values(|x: Device| x@) =~= before.push(self@[i as int]));
            }
            i += 1;
        }
        assert(self@.take(n as int) =~= self@);
        out
    }

    /// The UUID of the first record whose device can take uploads.
    pub fn get_active_uuid(&self) -> (r: Option<String>)
        ensures
            first_active_spec(self@, opt_view(r)),
    {
        let n = self.records.len();
        let mut i: usize = 0;
        while i < n
            invariant
                n == self@.len(),
                0 <= i <= n,
                forall|j: int| 0 <= j < i ==> !is_active(#[trigger] self@[j]),
            decreases n - i,
        {
            let r = &self.records[i];
            if !r.removed && r.joined && r.mount_success {
                match &r.uuid {
                    Some(u) => {
                        let res = Some(u.clone());
                        assert(is_active(self@[i as int]));
                        return res;
                    },
                    None => {},
                }
            }
            i += 1;
        }
        None
    }

    /// Copies of all records, in store order.
    pub fn to_records(&self) -> (r: Vec<Device>)
        ensures
            r@.map_values(|x: Device| x@) == self@,
    {
        let n = self.records.len();
        let mut out: Vec<Device> = Vec::new();
        let mut i: usize = 0;
        while i < n
            invariant
                n == self@.len(),
                0 <= i <= n,
                out@.map_values(|x: Device| x@) == self@.take(i as int),
            decreases n - i,
        {
            let ghost before = out@.map_values(|x: Device| x@);
            out.push(self.records[i].duplicate());
            assert(out@.map_values(|x: Device| x@) =~= before.push(self@[i as int]));
            assert(out@.map_values(|x: Device| x@) =~= self@.take(i as int + 1));
            i += 1;
        }
        assert(self@.take(n as int) =~= self@);
        out
    }

    /// A store holding `rows`, provided that no two of them carry the same
    /// UUID and every row marked mounted names its mount path.
    pub fn from_records(rows: Vec<Device>) -> (r: Option<DeviceTable>)
        ensures
            r is Some <==> table_wf(rows@.map_values(|x: Device| x@)),
            r matches Some(t) ==> t@ == rows@.map_values(|x: Device| x@) && t.wf(),
    {
        let ghost t = rows@.map_values(|x: Device| x@);
        let n = rows.len();
        let mut i: usize = 0;
        while i < n
            invariant
                n == t.len(),
                t == rows@.map_values(|x: Device| x@),
                0 <= i <= n,
                forall|a: int| 0 <= a < i ==> ((#[trigger] t[a]).mount_success ==> t[a].mount_path is Some),
                forall|a: int, b: int|
                    0 <= a < i && 0 <= b < n && a != b && (#[trigger] t[a]).uuid is Some ==> t[a].uuid
                        != (#[trigger] t[b]).uuid,
            decreases n - i,
        {
            if rows[i].mount_success && rows[i].mount_path.is_none() {
                assert(!mounted_have_paths(t)) by {
                    assert(t[i as int].mount_success);
                }
                return None;
            }
            match &rows[i].uuid {
                Some(u) => {
                    let mut k: usize = 0;
                    while k < n
                        invariant
                            n == t.len(),
                            t == rows@.map_values(|x: Device| x@),
                            0 <= i < n,
                            0 <= k <= n,
                            t[i as int].uuid == Some(u@),
                            forall|b: int| 0 <= b < k && b != i ==> t[i as int].uuid != (#[trigger] t[b]).uuid,
                        decreases n - k,
                    {
                        if k != i && opt_is(&rows[k].uuid, u.as_str()) {
                            assert(!uuids_unique(t)) by {
                                assert(t[i as int].uuid == t[k as int].uuid);
                            }
                            return None;
                        }
                        k += 1;
                    }
                },
                None => {},
            }
            i += 1;
        }
        let r = DeviceTable { records: rows };
        assert(r@ == t);
        Some(r)
    }
}

} // verus!
