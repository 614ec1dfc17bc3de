//! The snapshot descriptor parser and writer: the multi-line description
//! scenario, the round trip, and the hard parse errors.
use hvctrl::types::{ErrorKind, Repr, Snapshot, VmError};
use hvctrl::virtualbox::VBoxManage;

fn snap(id: &str, name: &str, detail: &str) -> Snapshot {
    Snapshot {
        id: Some(id.to_string()),
        name: Some(name.to_string()),
        detail: Some(detail.to_string()),
    }
}

#[test]
fn three_line_description_dump() {
    let dump = "SnapshotName=\"s1\"\nSnapshotUUID=\"u1\"\nSnapshotDescription=\"line1\nline2\nline3\"\nSnapshotName-1=\"s2\"\nSnapshotUUID-1=\"u2\"\nSnapshotDescription-1=\"short\"\nCurrentSnapshotName=\"s2\"\n";
    let v = VBoxManage::parse_snapshot_list(dump).unwrap();
    assert_eq!(v.len(), 2);
    assert_eq!(v[0].name.as_deref().unwrap(), "s1");
    assert_eq!(v[0].id.as_deref().unwrap(), "u1");
    assert_eq!(v[0].detail.as_deref().unwrap(), "line1\nline2\nline3");
    assert_eq!(v[1].name.as_deref().unwrap(), "s2");
    assert_eq!(v[1].id.as_deref().unwrap(), "u2");
    assert_eq!(v[1].detail.as_deref().unwrap(), "short");
}

#[test]
fn no_snapshots_notice_is_empty_list() {
    let v = VBoxManage::parse_snapshot_list("This machine does not have any snapshots")
        .unwrap();
    assert_eq!(v.len(), 0);
}

#[test]
fn descriptor_round_trip() {
    let list = vec![
        snap("u1", "s1", "line1\nline2\nline3"),
        snap("u2", "s2", "short"),
        snap("u3", "s3", ""),
    ];
    let text = VBoxManage::serialize_snapshot_list(&list).unwrap();
    let back = VBoxManage::parse_snapshot_list(&text).unwrap();
    assert_eq!(back.len(), list.len());
    for (a, b) in back.iter().zip(list.iter()) {
        assert_eq!(a.id, b.id);
        assert_eq!(a.name, b.name);
        assert_eq!(a.detail, b.detail);
    }
}

#[test]
fn unexpected_line_is_hard_error() {
    let dump = "SnapshotUUID=\"u1\"\n";
    let e = VBoxManage::parse_snapshot_list(dump).unwrap_err();
    assert_eq!(
        e,
        VmError::from(ErrorKind::UnexpectedResponse("SnapshotUUID=\"u1\"".to_string()))
    );
}

#[test]
fn truncated_record_is_hard_error() {
    let dump = "SnapshotName=\"s1\"\n";
    let e = VBoxManage::parse_snapshot_list(dump).unwrap_err();
    assert_eq!(e.get_repr(), &Repr::Simple(ErrorKind::UnexpectedResponse(dump.to_string())));
}

#[test]
fn serialize_rejects_missing_field() {
    let list = vec![Snapshot { id: None, name: Some("s".to_string()), detail: None }];
    let e = VBoxManage::serialize_snapshot_list(&list).unwrap_err();
    assert_eq!(
        e,
        VmError::from(ErrorKind::InvalidParameter(
            "snapshot record is missing a field".to_string()
        ))
    );
}

#[test]
fn vm_list_line_parses_name_with_spaces() {
    let v = VBoxManage::parse_vm_list("\"my vm name\" {1234-uuid}\n\"other\" {5678}").unwrap();
    assert_eq!(v.len(), 2);
    assert_eq!(v[0].name.as_deref().unwrap(), "my vm name");
    assert_eq!(v[0].id.as_deref().unwrap(), "{1234-uuid}");
    assert_eq!(v[1].name.as_deref().unwrap(), "other");
    assert_eq!(v[1].id.as_deref().unwrap(), "{5678}");
}

#[test]
fn vm_list_malformed_line_is_error() {
    let e = VBoxManage::parse_vm_list("nospace").unwrap_err();
    assert_eq!(
        e,
        VmError::from(ErrorKind::UnexpectedResponse("nospace".to_string()))
    );
}

#[test]
fn info_lookup_and_state() {
    let info = "name=\"vm1\"\ngroups=\"/\"\nostype=\"Ubuntu (64-bit)\"\nUUID=\"u\"\nCfgFile=\"C:\\\\vms\\\\a.vbox\"\nVMState=\"running\"\n";
    assert_eq!(
        VBoxManage::get_os_version(info).unwrap(),
        "Ubuntu (64-bit)"
    );
    assert!(VBoxManage::is_running(info).unwrap());
    assert_eq!(
        VBoxManage::cfg_file_of_info(info).unwrap(),
        "C:\\\\vms\\\\a.vbox"
    );
    let stopped = "VMState=\"poweroff\"\n";
    assert!(!VBoxManage::is_running(stopped).unwrap());
}

#[test]
fn is_uuid_accepts_and_rejects() {
    assert!(VBoxManage::is_uuid("12345678-90ab-cdef-AB12-34567890abcd"));
    assert!(!VBoxManage::is_uuid("12345678-90ab-cdef-AB12-34567890abc"));
    assert!(!VBoxManage::is_uuid("12345678x90ab-cdef-AB12-34567890abcd"));
    assert!(!VBoxManage::is_uuid(""));
}

#[test]
fn escape_path_doubles_backslashes() {
    assert_eq!(VBoxManage::escape_path("C:\\a\\b"), "C:\\\\a\\\\b");
}
