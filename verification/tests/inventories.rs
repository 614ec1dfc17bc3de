//! The persisted-inventory parsers, on the fixtures of both file
//! schemas, including a wrong key shape and a declared encoding under
//! which the content is malformed.
use hvctrl::vmware::{parse_inventory, parse_preferences};

#[test]
fn test_parse_preferences() {
    let s = r#".encoding = "UTF-8"
pref.keyboardAndMouse.vmHotKey.enabled = "FALSE"
pref.keyboardAndMouse.vmHotKey.count = "0"
pref.ws.session.window.count = "1"
pref.mruVM0.filename = "C:\Users\user\Virtual Machines\CentOS 8 (64 ビット)\CentOS 8 (64 ビット).vmx"
pref.mruVM0.displayName = "CentOS 8 (64 ビット)"
pref.mruVM0.index = "0"
pref.vmplayer.deviceBarToplevel = "FALSE"
vmWizard.isoLocationMRU1.location = "C:\vmware\ubuntu-ja-20.04.1-desktop-amd64.iso"
pref.mruVM1.filename = "C:\Users\user\Documents\Virtual Machines\Ubuntu 64 ビット\Ubuntu 64 ビット.vmx"
pref.mruVM1.displayName = "Ubuntu2004"
pref.mruVM1.index = "1"
"#
    .as_bytes();
    let vm = parse_preferences(s).unwrap();
    assert_eq!(
        vm[0].path.as_deref().unwrap(),
        r"C:\Users\user\Virtual Machines\CentOS 8 (64 ビット)\CentOS 8 (64 ビット).vmx",
    );
    assert_eq!(vm[0].name.as_deref().unwrap(), r"CentOS 8 (64 ビット)");
    assert_eq!(
        vm[1].path.as_deref().unwrap(),
        r"C:\Users\user\Documents\Virtual Machines\Ubuntu 64 ビット\Ubuntu 64 ビット.vmx",
    );
    assert_eq!(vm[1].name.as_deref().unwrap(), r"Ubuntu2004");
    let s = r#".encoding = "UTF-8"
pref.mruVM1.filename = "C:\Users\user\Documents\Virtual Machines\Ubuntu 64 ビット\Ubuntu 64 ビット.vmx"
"#
    .as_bytes();
    let vm = parse_preferences(s).unwrap();
    assert_eq!(
        vm[0].path.as_deref().unwrap(),
        r"C:\Users\user\Documents\Virtual Machines\Ubuntu 64 ビット\Ubuntu 64 ビット.vmx"
    );
    let s = r#"encoding = "UTF-8"
pref.mruVM1.filename = "C:\Users\user\Documents\Virtual Machines\Ubuntu 64 ビット\Ubuntu 64 ビット.vmx"
"#
    .as_bytes();
    assert_eq!(parse_preferences(s), None);
    let s = r#".encoding = "Shift_JIS"
pref.mruVM1.filename = "C:\Users\user\Documents\Virtual Machines\Ubuntu 64 ビット\Ubuntu 64 ビット.vmx"
"#
    .as_bytes();
    assert_eq!(parse_preferences(s), None);
}

#[test]
fn test_parse_inventory() {
    let s = r#".encoding = "UTF-8"
vmlist1.config = "C:\path\to\the\aaaa.vmx"
vmlist1.DisplayName = "名前"
vmlist1.ParentID = "0"
vmlist1.ItemID = "1"
vmlist1.SeqID = "0"
vmlist1.IsFavorite = "TRUE"
vmlist1.IsClone = "FALSE"
vmlist1.CfgVersion = "8"
vmlist1.State = "paused"
vmlist1.UUID = "12 34 56 78 90 12 34 56-78 9a bc de 0f 12 12 11"
vmlist1.IsCfgPathNormalized = "TRUE"
vmlist2.config = "C:\path\to\the\b.vmx"
vmlist2.DisplayName = "BBB"
vmlist2.ParentID = "0"
vmlist2.ItemID = "2"
vmlist2.SeqID = "1"
"#
    .as_bytes();
    let vm = parse_inventory(s).unwrap();
    assert_eq!(vm[0].path.as_deref().unwrap(), r"C:\path\to\the\aaaa.vmx",);
    assert_eq!(vm[0].name.as_deref().unwrap(), r"名前");
    assert_eq!(vm[1].path.as_deref().unwrap(), r"C:\path\to\the\b.vmx",);
    assert_eq!(vm[1].name.as_deref().unwrap(), r"BBB");
    let s = r#".encoding = "UTF-8"
vmlist2.config = ""
"#
    .as_bytes();
    let vm = parse_inventory(s).unwrap();
    assert_eq!(vm.len(), 0);
    let s = r#"encoding = "UTF-8"
vm.DisplayName = ""
"#
    .as_bytes();
    assert_eq!(parse_inventory(s), None);
    let s = r#".encoding = "Shift_JIS"
vimlist1.config = "C:\Users\user\Documents\Virtual Machines\Ubuntu 64 ビット\Ubuntu 64 ビット.vmx"
"#
    .as_bytes();
    assert_eq!(parse_inventory(s), None);
}

#[test]
fn preferences_unknown_label_is_rejected() {
    let s = ".encoding = \"no-such-encoding\"\npref.mruVM0.filename = \"a.vmx\"\n".as_bytes();
    assert_eq!(parse_preferences(s), None);
}

#[test]
fn preferences_indices_come_out_sorted() {
    let s = ".encoding = \"UTF-8\"\npref.mruVM2.filename = \"two.vmx\"\npref.mruVM0.filename = \"zero.vmx\"\npref.mruVM1.filename = \"one.vmx\"\n"
        .as_bytes();
    let vm = parse_preferences(s).unwrap();
    assert_eq!(vm.len(), 3);
    assert_eq!(vm[0].path.as_deref().unwrap(), "zero.vmx");
    assert_eq!(vm[1].path.as_deref().unwrap(), "one.vmx");
    assert_eq!(vm[2].path.as_deref().unwrap(), "two.vmx");
}

#[test]
fn preferences_unrecognized_field_still_creates_record() {
    let s = ".encoding = \"UTF-8\"\npref.mruVM0.index = \"0\"\n".as_bytes();
    let vm = parse_preferences(s).unwrap();
    assert_eq!(vm.len(), 1);
    assert_eq!(vm[0].path, None);
    assert_eq!(vm[0].name, None);
}

#[test]
fn preferences_last_write_wins_per_field() {
    let s = ".encoding = \"UTF-8\"\npref.mruVM0.filename = \"first.vmx\"\npref.mruVM0.filename = \"second.vmx\"\n"
        .as_bytes();
    let vm = hvctrl::vmware::parse_preferences(s).unwrap();
    assert_eq!(vm.len(), 1);
    assert_eq!(vm[0].path.as_deref().unwrap(), "second.vmx");
}
