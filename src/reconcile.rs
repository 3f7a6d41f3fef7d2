//! The periodic reconciliation pass: which admitted devices to mount, where,
//! and whether a blank device may be formatted first.

use vstd::prelude::*;

use crate::device::{
    candidates_spec, is_candidate, removed_spec, upsert_spec, Device, DeviceModel, DeviceTable,
};
use crate::placement::{join_path, join_spec};
use crate::probe::{
    is_listed_mounted, is_trim_of, lemma_trim_unique, mount_table_lists, parse_probe_output,
    probe_uuid_spec,
};

verus! {

/// What a reconciliation pass does with one admitted, present device.
#[derive(Debug, Clone, Copy, PartialEq, Eq, Structural)]
pub enum MountAction {
    /// The record has no usable UUID: an inconsistent state, left alone.
    SkipNoUuid,
    /// The record says mounted and the mount table agrees.
    SkipMounted,
    /// The mount table already lists the device: only the record is updated.
    RecordExisting,
    /// The device is mounted at the target, and the record updated on success.
    Mount,
}

/// One step of a reconciliation pass.
#[derive(Debug)]
pub struct MountStep {
    pub action: MountAction,
    pub devnode: String,
    /// The device's UUID; empty where the action is `SkipNoUuid`.
    pub uuid: String,
    /// Where the device is to be mounted; empty where the action is `SkipNoUuid`.
    pub target: String,
}

pub ghost struct StepModel {
    pub action: MountAction,
    pub devnode: Seq<char>,
    pub uuid: Seq<char>,
    pub target: Seq<char>,
}

impl View for MountStep {
    type V = StepModel;

    open spec fn view(&self) -> StepModel {
        StepModel {
            action: self.action,
            devnode: self.devnode@,
            uuid: self.uuid@,
            target: self.target@,
        }
    }
}

pub open spec fn usable_uuid(r: DeviceModel) -> bool {
    r.uuid is Some && r.uuid->0.len() > 0
}

/// The mount path of a device: the one it was mounted at before, where one
/// is recorded and not empty, else the directory named by its UUID under the
/// storage root.
pub open spec fn target_spec(root: Seq<char>, r: DeviceModel) -> Seq<char> {
    match r.mount_path {
        Some(p) if p.len() > 0 => p,
        _ => join_spec(root, r.uuid->0),
    }
}

pub open spec fn action_spec(r: DeviceModel, os_mounted: bool) -> MountAction {
    if !usable_uuid(r) {
        MountAction::SkipNoUuid
    } else if r.mount_success && os_mounted {
        MountAction::SkipMounted
    } else if os_mounted {
        MountAction::RecordExisting
    } else {
        MountAction::Mount
    }
}

pub open spec fn step_spec(root: Seq<char>, r: DeviceModel, os_mounted: bool) -> StepModel {
    if !usable_uuid(r) {
        StepModel {
            action: MountAction::SkipNoUuid,
            devnode: r.devnode,
            uuid: Seq::empty(),
            target: Seq::empty(),
        }
    } else {
        StepModel {
            action: action_spec(r, os_mounted),
            devnode: r.devnode,
            uuid: r.uuid->0,
            target: target_spec(root, r),
        }
    }
}

/// The steps of one pass over store `t`, given the mount table text `mounts`.
pub open spec fn tick_spec(t: Seq<DeviceModel>, root: Seq<char>, mounts: Seq<char>) -> Seq<StepModel> {
    candidates_spec(t).map_values(
        |r: DeviceModel| step_spec(root, r, mount_table_lists(mounts, r.devnode)),
    )
}

/// Decides what to do with one device, given whether the mount table lists it.
pub fn plan_mount(root: &str, rec: &Device, os_mounted: bool) -> (r: MountStep)
    ensures
        r@ == step_spec(root@, rec@, os_mounted),
        r.action != MountAction::SkipNoUuid ==> r.target@.len() > 0,
{
    let uuid = match &rec.uuid {
        Some(u) if u.as_str().unicode_len() > 0 => u.clone(),
        _ => {
            return MountStep {
                action: MountAction::SkipNoUuid,
                devnode: rec.devnode.clone(),
                uuid: String::new(),
                target: String::new(),
            };
        },
    };
    let target = match &rec.mount_path {
        Some(p) if p.as_str().unicode_len() > 0 => p.clone(),
        _ => join_path(root, uuid.as_str()),
    };
    let action = if rec.mount_success && os_mounted {
        MountAction::SkipMounted
    } else if os_mounted {
        MountAction::RecordExisting
    } else {
        MountAction::Mount
    };
    MountStep { action, devnode: rec.devnode.clone(), uuid, target }
}

impl DeviceTable {
    /// The steps of one reconciliation pass: one for each present, admitted
    /// record, in store order, given the text of the live mount table.
    pub fn plan_pending(&self, root: &str, mounts: &str) -> (r: Vec<MountStep>)
        ensures
            r@.map_values(|s: MountStep| s@) == tick_spec(self@, root@, mounts@),
    {
        let rows = self.list_joined_active();
        let ghost cs = candidates_spec(self@);
        let n = rows.len();
        let mut out: Vec<MountStep> = Vec::new();
        let mut i: usize = 0;
        while i < n
            invariant
                n == cs.len(),
                rows@.map_values(|x: Device| x@) == cs,
                cs == candidates_spec(self@),
                0 <= i <= n,
                out@.map_values(|s: MountStep| s@) == tick_spec(self@, root@, mounts@).take(i as int),
            decreases n - i,
        {
            let row = &rows[i];
            assert(row@ == cs[i as int]);
            let listed = is_listed_mounted(mounts, row.devnode.as_str());
            let step = plan_mount(root, row, listed);
            let ghost before = out@.map_values(|s: MountStep| s@);
            out.push(step);
            assert(out@.map_values(|s: MountStep| s@) =~= before.push(step@));
            assert(out@.map_values(|s: MountStep| s@) =~= tick_spec(self@, root@, mounts@).take(
                i as int + 1,
            ));
            i += 1;
        }
        assert(tick_spec(self@, root@, mounts@).take(n as int) =~= tick_spec(self@, root@, mounts@));
        out
    }
}

impl DeviceTable {
    /// An add event for `devnode`, given the exit status and output of the
    /// UUID probe of the device. A device whose UUID cannot be read yet is
    /// not recorded; otherwise the store is updated as for a discovery.
    /// Returns the UUID that was recorded.
    pub fn on_add_event(&mut self, devnode: &str, probe_success: bool, probe_stdout: &str, now: i64) -> (r:
        Option<String>)
        ensures
            final(self).wf(),
            match r {
                Some(u) => probe_uuid_spec(probe_success, probe_stdout@, Some(u@)) && final(self)@
                    == upsert_spec(old(self)@, devnode@, u@, now as int),
                None => probe_uuid_spec(probe_success, probe_stdout@, None) && final(self)@ == old(
                    self,
                )@,
            },
    {
        proof {
            use_type_invariant(&*self);
        }
        let uuid = parse_probe_output(probe_success, probe_stdout);
        match &uuid {
            Some(u) => self.upsert_device(devnode, u.as_str(), now),
            None => {},
        }
        uuid
    }

    /// A remove event for `devnode`, given the text of the live mount table.
    /// The device's records are marked removed and not mounted; the result
    /// says whether the device is still mounted, so that an unmount should be
    /// tried (the device is gone either way).
    pub fn on_remove_event(&mut self, devnode: &str, mounts: &str, now: i64) -> (unmount: bool)
        ensures
            final(self).wf(),
            final(self)@ == removed_spec(old(self)@, devnode@, now as int),
            unmount == mount_table_lists(mounts@, devnode@),
    {
        let listed = is_listed_mounted(mounts, devnode);
        self.mark_removed(devnode, now);
        listed
    }
}

/// What to do about the filesystem of a device before it is mounted.
#[derive(Debug, Clone, Copy, PartialEq, Eq, Structural)]
pub enum FormatStep {
    /// A filesystem is present.
    Ready,
    /// No filesystem, and formatting is allowed: create one.
    Format,
    /// No filesystem, and formatting is not allowed: warn and leave it.
    Unformatted,
}

pub open spec fn format_spec(has_filesystem: bool, allow_format: bool) -> FormatStep {
    if has_filesystem {
        FormatStep::Ready
    } else if allow_format {
        FormatStep::Format
    } else {
        FormatStep::Unformatted
    }
}

/// A filesystem-type probe found a filesystem: it succeeded and printed
/// something other than white space.
pub open spec fn probe_found(success: bool, stdout: Seq<char>) -> bool {
    success && !is_trim_of(Seq::<char>::empty(), stdout)
}

/// Decides on formatting from a filesystem-type probe. Formatting is
/// irreversible, so it happens only where `allow_format` is set.
pub fn ensure_filesystem(probe_success: bool, probe_stdout: &str, allow_format: bool) -> (r: FormatStep)
    ensures
        r == format_spec(probe_found(probe_success, probe_stdout@), allow_format),
{
    let ty = parse_probe_output(probe_success, probe_stdout);
    let present = ty.is_some();
    proof {
        if present {
            let t = ty->0@;
            if is_trim_of(Seq::<char>::empty(), probe_stdout@) {
                lemma_trim_unique(t, Seq::<char>::empty(), probe_stdout@);
            }
        }
    }
    if present {
        FormatStep::Ready
    } else if allow_format {
        FormatStep::Format
    } else {
        FormatStep::Unformatted
    }
}

/// Every record that a store's candidate list holds is present, admitted and
/// in the store.
pub proof fn lemma_candidates_admitted(t: Seq<DeviceModel>)
    ensures
        forall|k: int|
            0 <= k < candidates_spec(t).len() ==> is_candidate(#[trigger] candidates_spec(t)[k]) && exists|
                i: int,
            | 0 <= i < t.len() && t[i] == candidates_spec(t)[k],
    decreases t.len(),
{
    if t.len() > 0 {
        let pre = t.drop_last();
        lemma_candidates_admitted(pre);
        assert forall|k: int| 0 <= k < candidates_spec(t).len() implies is_candidate(
            #[trigger] candidates_spec(t)[k],
        ) && exists|i: int| 0 <= i < t.len() && t[i] == candidates_spec(t)[k] by {
            if k < candidates_spec(pre).len() {
                let i = choose|i: int| 0 <= i < pre.len() && pre[i] == candidates_spec(pre)[k];
                assert(t[i] == pre[i]);
            } else {
                assert(t[t.len() - 1] == candidates_spec(t)[k]);
            }
        }
    }
}

/// Admission gate: in the plan of a reconciliation pass, whatever the store
/// holds, a step that mounts a device or records it as mounted is for a
/// record that is present and admitted, with the step's node and UUID, and
/// its target is not empty.
pub proof fn lemma_plan_only_admitted(t: Seq<DeviceModel>, root: Seq<char>, mounts: Seq<char>, k: int)
    requires
        0 <= k < tick_spec(t, root, mounts).len(),
        tick_spec(t, root, mounts)[k].action == MountAction::Mount || tick_spec(t, root, mounts)[k].action
            == MountAction::RecordExisting,
    ensures
        exists|i: int|
            0 <= i < t.len() && (#[trigger] t[i]).joined && !t[i].removed && t[i].devnode == tick_spec(
                t,
                root,
                mounts,
            )[k].devnode && t[i].uuid == Some(tick_spec(t, root, mounts)[k].uuid),
        tick_spec(t, root, mounts)[k].target.len() > 0,
{
    lemma_candidates_admitted(t);
    let c = candidates_spec(t)[k];
    let i = choose|i: int| 0 <= i < t.len() && t[i] == candidates_spec(t)[k];
    assert(t[i] == c);
}

} // verus!
