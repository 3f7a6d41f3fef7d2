//! Laws of the device store, stated over its model.

use vstd::prelude::*;

use crate::device::{
    joined_spec, knows_uuid, mount_result_spec, removed_spec, table_wf, upsert_spec, DeviceModel,
};

verus! {

/// One change applied to the device store.
pub ghost enum StoreEvent {
    /// An add event for the device with filesystem UUID `uuid` at `devnode`.
    Added { devnode: Seq<char>, uuid: Seq<char>, at: int },
    /// A remove event for `devnode`.
    Removed { devnode: Seq<char>, at: int },
    /// A reconciliation pass saw `uuid` at `devnode` mounted at `path`.
    Mounted { devnode: Seq<char>, path: Seq<char>, uuid: Seq<char> },
    /// The admission of `uuid` was set to `joined`.
    Admitted { uuid: Seq<char>, joined: bool },
}

pub open spec fn apply_event(t: Seq<DeviceModel>, e: StoreEvent) -> Seq<DeviceModel> {
    match e {
        StoreEvent::Added { devnode, uuid, at } => upsert_spec(t, devnode, uuid, at),
        StoreEvent::Removed { devnode, at } => removed_spec(t, devnode, at),
        StoreEvent::Mounted { devnode, path, uuid } => mount_result_spec(t, devnode, path, uuid),
        StoreEvent::Admitted { uuid, joined } => joined_spec(t, uuid, joined),
    }
}

/// The store after the events were applied in order.
pub open spec fn apply_all(t: Seq<DeviceModel>, evs: Seq<StoreEvent>) -> Seq<DeviceModel>
    decreases evs.len(),
{
    if evs.len() == 0 {
        t
    } else {
        apply_event(apply_all(t, evs.drop_last()), evs.last())
    }
}

/// Whether event `e`, applied to `t`, is an add (`Some(false)`) or a remove
/// (`Some(true)`) of the device `u`; a remove is of `u` when it names the
/// node that `u`'s record holds at that moment.
pub open spec fn presence_event(t: Seq<DeviceModel>, e: StoreEvent, u: Seq<char>) -> Option<bool> {
    match e {
        StoreEvent::Added { uuid, .. } => if uuid == u {
            Some(false)
        } else {
            None
        },
        StoreEvent::Removed { devnode, .. } => if exists|i: int|
            0 <= i < t.len() && (#[trigger] t[i]).uuid == Some(u) && t[i].devnode == devnode {
            Some(true)
        } else {
            None
        },
        _ => None,
    }
}

/// The kind of the last add or remove of device `u` among `evs`.
pub open spec fn last_presence(t: Seq<DeviceModel>, evs: Seq<StoreEvent>, u: Seq<char>) -> Option<bool>
    decreases evs.len(),
{
    if evs.len() == 0 {
        None
    } else {
        match presence_event(apply_all(t, evs.drop_last()), evs.last(), u) {
            Some(b) => Some(b),
            None => last_presence(t, evs.drop_last(), u),
        }
    }
}

/// Every store operation keeps UUIDs unique and mounted records with paths.
pub proof fn lemma_event_keeps_wf(t: Seq<DeviceModel>, e: StoreEvent)
    requires
        table_wf(t),
    ensures
        table_wf(apply_event(t, e)),
{
    let t2 = apply_event(t, e);
    match e {
        StoreEvent::Added { devnode, uuid, at } => {
            if !knows_uuid(t, uuid) {
                assert forall|i: int, j: int|
                    0 <= i < t2.len() && 0 <= j < t2.len() && i != j && (#[trigger] t2[i]).uuid is Some
                    implies t2[i].uuid != (#[trigger] t2[j]).uuid by {
                    if i == t.len() {
                        assert(t[j] == t2[j]);
                    } else if j == t.len() {
                        assert(t[i] == t2[i]);
                    } else {
                        assert(t[i] == t2[i] && t[j] == t2[j]);
                    }
                }
            }
        },
        _ => {},
    }
}

/// Applying any sequence of events keeps the store well formed.
pub proof fn lemma_events_keep_wf(t: Seq<DeviceModel>, evs: Seq<StoreEvent>)
    requires
        table_wf(t),
    ensures
        table_wf(apply_all(t, evs)),
    decreases evs.len(),
{
    if evs.len() > 0 {
        lemma_events_keep_wf(t, evs.drop_last());
        lemma_event_keeps_wf(apply_all(t, evs.drop_last()), evs.last());
    }
}

/// The removed flag of a device's record is the kind of the last add or
/// remove event of that device, whatever mount results and admissions came
/// in between; with no such event it is the flag the record started with.
pub proof fn lemma_removed_follows_last_event(t: Seq<DeviceModel>, evs: Seq<StoreEvent>, u: Seq<char>, i: int)
    requires
        table_wf(t),
        0 <= i < apply_all(t, evs).len(),
        apply_all(t, evs)[i].uuid == Some(u),
    ensures
        match last_presence(t, evs, u) {
            Some(b) => apply_all(t, evs)[i].removed == b,
            None => knows_uuid(t, u) && forall|j: int|
                0 <= j < t.len() && (#[trigger] t[j]).uuid == Some(u) ==> t[j].removed == apply_all(
                    t,
                    evs,
                )[i].removed,
        },
    decreases evs.len(),
{
    if evs.len() == 0 {
        assert(t[i].uuid == Some(u));
        assert forall|j: int| 0 <= j < t.len() && (#[trigger] t[j]).uuid == Some(u) implies t[j].removed
            == t[i].removed by {
            if j != i {
                assert(t[i].uuid != t[j].uuid);
            }
        }
    } else {
        let pre = evs.drop_last();
        let t1 = apply_all(t, pre);
        let e = evs.last();
        let t2 = apply_all(t, evs);
        assert(t2 == apply_event(t1, e));
        lemma_events_keep_wf(t, pre);
        match e {
            StoreEvent::Added { devnode, uuid, at } => {
                if uuid != u {
                    assert(t2[i] == t1[i]);
                    lemma_removed_follows_last_event(t, pre, u, i);
                } else if !knows_uuid(t1, u) {
                    assert(i == t1.len()) by {
                        if i < t1.len() {
                            assert(t2[i] == t1[i]);
                        }
                    }
                }
            },
            StoreEvent::Removed { devnode, at } => {
                if t1[i].devnode == devnode {
                    assert(presence_event(t1, e, u) == Some(true));
                } else {
                    assert(presence_event(t1, e, u) is None) by {
                        if exists|k: int|
                            0 <= k < t1.len() && (#[trigger] t1[k]).uuid == Some(u) && t1[k].devnode
                                == devnode {
                            let k = choose|k: int|
                                0 <= k < t1.len() && (#[trigger] t1[k]).uuid == Some(u) && t1[k].devnode
                                    == devnode;
                            if k != i {
                                assert(t1[i].uuid != t1[k].uuid);
                            }
                        }
                    }
                    assert(t2[i] == t1[i]);
                    lemma_removed_follows_last_event(t, pre, u, i);
                }
            },
            StoreEvent::Mounted { devnode, path, uuid } => {
                assert(t2[i].removed == t1[i].removed && t1[i].uuid == t2[i].uuid);
                lemma_removed_follows_last_event(t, pre, u, i);
            },
            StoreEvent::Admitted { uuid, joined } => {
                assert(t2[i].removed == t1[i].removed && t1[i].uuid == t2[i].uuid);
                lemma_removed_follows_last_event(t, pre, u, i);
            },
        }
    }
}

/// Reporting a device a second time at the same node changes nothing but
/// the time it was last seen: the store equals the one after a single report
/// at the later time.
pub proof fn lemma_upsert_idempotent(t: Seq<DeviceModel>, d: Seq<char>, u: Seq<char>, now1: int, now2: int)
    requires
        table_wf(t),
    ensures
        upsert_spec(upsert_spec(t, d, u, now1), d, u, now2) == upsert_spec(t, d, u, now2),
{
    let t1 = upsert_spec(t, d, u, now1);
    let lhs = upsert_spec(t1, d, u, now2);
    let rhs = upsert_spec(t, d, u, now2);
    if knows_uuid(t, u) {
        let k = choose|k: int| 0 <= k < t.len() && (#[trigger] t[k]).uuid == Some(u);
        assert(t1[k].uuid == Some(u));
        assert(lhs =~= rhs);
    } else {
        assert(t1[t.len() as int].uuid == Some(u));
        assert(lhs =~= rhs);
    }
}

/// A device removed and later reported again is present again and keeps
/// its admission, its UUID and its place in the store.
pub proof fn lemma_readd_keeps_admission(
    t: Seq<DeviceModel>,
    i: int,
    u: Seq<char>,
    gone_node: Seq<char>,
    removed_at: int,
    new_node: Seq<char>,
    added_at: int,
)
    requires
        table_wf(t),
        0 <= i < t.len(),
        t[i].uuid == Some(u),
    ensures
        ({
            let t2 = upsert_spec(removed_spec(t, gone_node, removed_at), new_node, u, added_at);
            &&& t2.len() == t.len()
            &&& t2[i].uuid == Some(u)
            &&& t2[i].removed == false
            &&& t2[i].joined == t[i].joined
            &&& t2[i].devnode == new_node
        }),
{
    let t1 = removed_spec(t, gone_node, removed_at);
    assert(t1[i].uuid == Some(u));
    assert(knows_uuid(t1, u));
}

} // verus!
