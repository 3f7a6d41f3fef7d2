use storage_plus::device::{Device, DeviceTable};
use storage_plus::probe::{is_listed_mounted, parse_probe_output};
use storage_plus::reconcile::{ensure_filesystem, plan_mount, FormatStep, MountAction};

fn record(devnode: &str, uuid: Option<&str>, removed: bool, joined: bool, mounted: bool, path: Option<&str>) -> Device {
    Device {
        devnode: devnode.to_string(),
        uuid: uuid.map(|u| u.to_string()),
        removed,
        joined,
        mount_success: mounted,
        mount_path: path.map(|p| p.to_string()),
        last_seen: 0,
    }
}

#[test]
fn add_then_admit_then_tick_mounts_at_uuid_dir() {
    let mut t = DeviceTable::new();
    let got = t.on_add_event("/dev/sdb", true, "U1\n", 100);
    assert_eq!(got.as_deref(), Some("U1"));
    assert_eq!(t.len(), 1);
    let r = t.get(0);
    assert_eq!(r.devnode, "/dev/sdb");
    assert_eq!(r.uuid.as_deref(), Some("U1"));
    assert!(!r.joined);
    assert!(!r.removed);
    assert!(!r.mount_success);
    assert_eq!(r.mount_path, None);
    assert_eq!(r.last_seen, 100);

    // not admitted yet: nothing to mount
    assert!(t.plan_pending("/mnt/pool", "").is_empty());

    assert!(t.set_joined("U1", true));
    let steps = t.plan_pending("/mnt/pool", "proc /proc proc rw 0 0\n");
    assert_eq!(steps.len(), 1);
    assert_eq!(steps[0].action, MountAction::Mount);
    assert_eq!(steps[0].devnode, "/dev/sdb");
    assert_eq!(steps[0].uuid, "U1");
    assert_eq!(steps[0].target, "/mnt/pool/U1");

    t.update_mount_result("/dev/sdb", &steps[0].target, "U1");
    let r = t.get(0);
    assert!(r.mount_success);
    assert_eq!(r.mount_path.as_deref(), Some("/mnt/pool/U1"));

    // steady state once the mount table lists it
    let steps = t.plan_pending("/mnt/pool", "/dev/sdb /mnt/pool/U1 ext4 rw 0 0\n");
    assert_eq!(steps.len(), 1);
    assert_eq!(steps[0].action, MountAction::SkipMounted);
}

#[test]
fn add_with_unreadable_uuid_records_nothing() {
    let mut t = DeviceTable::new();
    assert_eq!(t.on_add_event("/dev/sdc", false, "U9", 5), None);
    assert_eq!(t.on_add_event("/dev/sdc", true, "  \n", 5), None);
    assert_eq!(t.len(), 0);
}

#[test]
fn remove_marks_removed_and_asks_for_unmount() {
    let mut t = DeviceTable::new();
    t.upsert_device("/dev/sdb", "U1", 1);
    t.set_joined("U1", true);
    t.update_mount_result("/dev/sdb", "/mnt/pool/U1", "U1");
    let unmount = t.on_remove_event("/dev/sdb", "/dev/sdb /mnt/pool/U1 ext4 rw 0 0\n", 2);
    assert!(unmount);
    let r = t.get(0);
    assert!(r.removed);
    assert!(!r.mount_success);
    assert_eq!(r.last_seen, 2);
    assert!(r.joined);
    assert!(t.plan_pending("/mnt/pool", "").is_empty());
}

#[test]
fn remove_of_unknown_node_changes_nothing() {
    let mut t = DeviceTable::new();
    t.upsert_device("/dev/sdb", "U1", 1);
    let unmount = t.on_remove_event("/dev/sdz", "", 9);
    assert!(!unmount);
    let r = t.get(0);
    assert!(!r.removed);
    assert_eq!(r.last_seen, 1);
}

#[test]
fn readd_after_removal_keeps_admission() {
    let mut t = DeviceTable::new();
    t.upsert_device("/dev/sdb", "U1", 1);
    t.set_joined("U1", true);
    t.mark_removed("/dev/sdb", 2);
    assert!(t.get(0).removed);
    t.upsert_device("/dev/sdd", "U1", 3);
    assert_eq!(t.len(), 1);
    let r = t.get(0);
    assert!(!r.removed);
    assert!(r.joined);
    assert_eq!(r.devnode, "/dev/sdd");
    assert_eq!(r.last_seen, 3);
}

#[test]
fn upsert_twice_equals_once() {
    let mut once = DeviceTable::new();
    once.upsert_device("/dev/sdb", "U1", 7);
    let mut twice = DeviceTable::new();
    twice.upsert_device("/dev/sdb", "U1", 7);
    twice.upsert_device("/dev/sdb", "U1", 7);
    assert_eq!(once.len(), 1);
    assert_eq!(twice.len(), 1);
    let a = once.get(0);
    let b = twice.get(0);
    assert_eq!(a.devnode, b.devnode);
    assert_eq!(a.uuid, b.uuid);
    assert_eq!(a.removed, b.removed);
    assert_eq!(a.joined, b.joined);
    assert_eq!(a.mount_success, b.mount_success);
    assert_eq!(a.mount_path, b.mount_path);
    assert_eq!(a.last_seen, b.last_seen);
}

#[test]
fn removed_flag_follows_last_event_with_ticks_between() {
    let mut t = DeviceTable::new();
    t.upsert_device("/dev/sdb", "U1", 1);
    t.set_joined("U1", true);
    t.update_mount_result("/dev/sdb", "/mnt/pool/U1", "U1");
    t.mark_removed("/dev/sdb", 2);
    // a late mount result from a pass that raced the removal
    t.update_mount_result("/dev/sdb", "/mnt/pool/U1", "U1");
    assert!(t.get(0).removed);
    t.upsert_device("/dev/sdc", "U1", 3);
    t.mark_removed("/dev/sdb", 4); // stale node: no longer this device's
    assert!(!t.get(0).removed);
    t.mark_removed("/dev/sdc", 5);
    assert!(t.get(0).removed);
}

#[test]
fn unadmitted_devices_are_never_planned() {
    let rows = vec![
        record("/dev/sdb", Some("U1"), false, false, false, None),
        record("/dev/sdc", Some("U2"), true, true, false, None),
        record("/dev/sdd", Some("U3"), false, true, false, None),
        record("/dev/sde", Some("U4"), false, false, true, Some("/mnt/x")),
    ];
    let t = DeviceTable::from_records(rows).unwrap();
    let steps = t.plan_pending("/mnt/pool", "");
    assert_eq!(steps.len(), 1);
    assert_eq!(steps[0].devnode, "/dev/sdd");
    assert_eq!(steps[0].action, MountAction::Mount);
}

#[test]
fn plan_reuses_recorded_path_and_records_existing_mounts() {
    let rows = vec![
        record("/dev/sdb", Some("U1"), false, true, false, Some("/srv/old")),
        record("/dev/sdc", Some("U2"), false, true, false, None),
        record("/dev/sdd", None, false, true, false, None),
        record("/dev/sde", Some(""), false, true, false, None),
    ];
    let t = DeviceTable::from_records(rows).unwrap();
    let steps = t.plan_pending("/mnt/pool/", "/dev/sdc /elsewhere ext4 rw 0 0\n");
    assert_eq!(steps.len(), 4);
    assert_eq!(steps[0].action, MountAction::Mount);
    assert_eq!(steps[0].target, "/srv/old");
    assert_eq!(steps[1].action, MountAction::RecordExisting);
    assert_eq!(steps[1].target, "/mnt/pool/U2");
    assert_eq!(steps[2].action, MountAction::SkipNoUuid);
    assert_eq!(steps[3].action, MountAction::SkipNoUuid);
}

#[test]
fn plan_mount_single_record() {
    let r = record("/dev/sdb", Some("U1"), false, true, true, Some("/mnt/pool/U1"));
    assert_eq!(plan_mount("/mnt/pool", &r, true).action, MountAction::SkipMounted);
    let s = plan_mount("/mnt/pool", &r, false);
    assert_eq!(s.action, MountAction::Mount);
    assert_eq!(s.target, "/mnt/pool/U1");
}

#[test]
fn from_records_refuses_duplicate_uuids_and_pathless_mounts() {
    let dup = vec![
        record("/dev/sdb", Some("U1"), false, false, false, None),
        record("/dev/sdc", Some("U1"), true, false, false, None),
    ];
    assert!(DeviceTable::from_records(dup).is_none());
    let pathless = vec![record("/dev/sdb", Some("U1"), false, true, true, None)];
    assert!(DeviceTable::from_records(pathless).is_none());
    let fine = vec![
        record("/dev/sdb", None, false, false, false, None),
        record("/dev/sdc", None, false, false, false, None),
    ];
    let t = DeviceTable::from_records(fine).unwrap();
    assert_eq!(t.to_records().len(), 2);
}

#[test]
fn active_uuid_is_first_mounted_admitted_present() {
    let rows = vec![
        record("/dev/sdb", Some("U1"), true, true, false, None),
        record("/dev/sdc", Some("U2"), false, true, true, Some("/p/U2")),
        record("/dev/sdd", Some("U3"), false, true, true, Some("/p/U3")),
    ];
    let t = DeviceTable::from_records(rows).unwrap();
    assert_eq!(t.get_active_uuid().as_deref(), Some("U2"));
    assert_eq!(DeviceTable::new().get_active_uuid(), None);
}

#[test]
fn list_joined_active_keeps_store_order() {
    let mut t = DeviceTable::new();
    t.upsert_device("/dev/sdb", "U1", 1);
    t.upsert_device("/dev/sdc", "U2", 1);
    t.upsert_device("/dev/sdd", "U3", 1);
    t.set_joined("U3", true);
    t.set_joined("U1", true);
    assert!(!t.set_joined("U7", true));
    let l = t.list_joined_active();
    assert_eq!(l.len(), 2);
    assert_eq!(l[0].uuid.as_deref(), Some("U1"));
    assert_eq!(l[1].uuid.as_deref(), Some("U3"));
}

#[test]
fn mount_table_matching_is_by_first_field() {
    let table = "/dev/sda1 / ext4 rw 0 0\nproc /proc proc rw 0 0\n/dev/sdb /mnt/pool/U1 ext4 rw 0 0\n";
    assert!(is_listed_mounted(table, "/dev/sdb"));
    assert!(is_listed_mounted(table, "/dev/sda1"));
    assert!(!is_listed_mounted(table, "/dev/sda"));
    assert!(!is_listed_mounted(table, "/dev/sdc"));
    assert!(!is_listed_mounted(table, "/proc"));
    assert!(!is_listed_mounted(table, "proc /proc"));
    assert!(!is_listed_mounted("", "/dev/sdb"));
    assert!(!is_listed_mounted(table, ""));
    assert!(!is_listed_mounted(table, "/dev/sdb\n"));
    assert!(is_listed_mounted("/dev/sdc\t/x ext4", "/dev/sdc"));
    assert!(is_listed_mounted("/dev/sdc", "/dev/sdc"));
}

#[test]
fn partition_mount_does_not_count_for_the_disk() {
    let mut t = DeviceTable::new();
    t.upsert_device("/dev/sdb", "U1", 1);
    t.set_joined("U1", true);
    let steps = t.plan_pending("/mnt/pool", "/dev/sdb1 /media/x vfat rw 0 0\n");
    assert_eq!(steps.len(), 1);
    assert_eq!(steps[0].action, MountAction::Mount);
    assert!(!t.on_remove_event("/dev/sdb", "/dev/sdb1 /media/x vfat rw 0 0\n", 2));
}

#[test]
fn mount_result_records_the_path_as_given() {
    let mut t = DeviceTable::new();
    t.upsert_device("/dev/sdb", "U1", 1);
    t.set_joined("U1", true);
    t.update_mount_result("/dev/sdb", "", "U1");
    let r = t.get(0);
    assert!(r.mount_success);
    assert_eq!(r.mount_path.as_deref(), Some(""));
    // an empty recorded path is not reused as a mount target
    let steps = t.plan_pending("/mnt/pool", "");
    assert_eq!(steps.len(), 1);
    assert_eq!(steps[0].action, MountAction::Mount);
    assert_eq!(steps[0].target, "/mnt/pool/U1");
    let rows = vec![record("/dev/sdb", Some("U1"), false, true, false, Some(""))];
    assert!(DeviceTable::from_records(rows).is_some());
}

#[test]
fn mount_result_ignores_a_stale_node_or_other_uuid() {
    let mut t = DeviceTable::new();
    t.upsert_device("/dev/sdb", "U1", 1);
    t.update_mount_result("/dev/sdc", "/mnt/pool/U1", "U1");
    t.mark_mounted_existing("/dev/sdb", "/mnt/pool/U1", "U2");
    let r = t.get(0);
    assert!(!r.mount_success);
    assert_eq!(r.mount_path, None);
    t.mark_mounted_existing("/dev/sdb", "/mnt/pool/U1", "U1");
    assert!(t.get(0).mount_success);
}

#[test]
fn probe_output_is_trimmed() {
    assert_eq!(parse_probe_output(true, "  1234-ABCD \n").as_deref(), Some("1234-ABCD"));
    assert_eq!(parse_probe_output(true, "\t\n"), None);
    assert_eq!(parse_probe_output(false, "1234-ABCD"), None);
    assert_eq!(parse_probe_output(true, "\u{a0}x y\u{3000}").as_deref(), Some("x y"));
}

#[test]
fn formatting_needs_the_flag() {
    assert_eq!(ensure_filesystem(true, "ext4\n", false), FormatStep::Ready);
    assert_eq!(ensure_filesystem(true, "ext4\n", true), FormatStep::Ready);
    assert_eq!(ensure_filesystem(false, "", false), FormatStep::Unformatted);
    assert_eq!(ensure_filesystem(true, "\n", true), FormatStep::Format);
}
