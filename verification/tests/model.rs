//! The data model's equality rules and the command builders' outputs on
//! concrete configurations.
use hvctrl::hyperv::HyperVCmd;
use hvctrl::types::{Snapshot, Vm, VmPowerState};
use hvctrl::vmware::vmrun::{HostType, VmRun};

fn vm(id: Option<&str>, name: Option<&str>, path: Option<&str>) -> Vm {
    Vm {
        id: id.map(|s| s.to_string()),
        name: name.map(|s| s.to_string()),
        path: path.map(|s| s.to_string()),
    }
}

#[test]
fn vm_equality_id_takes_priority() {
    assert_eq!(vm(Some("A"), None, None), vm(Some("A"), Some("x"), None));
    assert_ne!(vm(Some("A"), None, None), vm(Some("B"), Some("x"), None));
    // With ids present on both sides, a matching name does not help.
    assert_ne!(
        vm(Some("A"), Some("x"), None),
        vm(Some("B"), Some("x"), None)
    );
    // Without ids, the path decides before the name.
    assert_eq!(
        vm(None, Some("x"), Some("p")),
        vm(None, Some("y"), Some("p"))
    );
    assert_ne!(
        vm(None, Some("x"), Some("p")),
        vm(None, Some("x"), Some("q"))
    );
    // Nothing in common: never equal.
    assert_ne!(vm(None, Some("x"), None), vm(Some("A"), None, Some("p")));
}

#[test]
fn snapshot_equality_id_then_name() {
    let a = Snapshot {
        id: Some("1".to_string()),
        name: Some("n".to_string()),
        detail: Some("d1".to_string()),
    };
    let b = Snapshot {
        id: Some("1".to_string()),
        name: Some("m".to_string()),
        detail: Some("d2".to_string()),
    };
    assert_eq!(a, b);
    let c = Snapshot { id: None, name: Some("n".to_string()), detail: None };
    let d = Snapshot { id: None, name: Some("n".to_string()), detail: Some("x".to_string()) };
    assert_eq!(c, d);
}

#[test]
fn power_state_is_running() {
    assert!(VmPowerState::Running.is_running());
    assert!(!VmPowerState::Stopped.is_running());
    assert!(!VmPowerState::Unknown.is_running());
}

#[test]
fn vmrun_builds_exact_command_lines() {
    let mut t = VmRun::new();
    t.executable_path("vmrun".to_string());
    t.host_type(HostType::Player);
    t.vm_path(Some("a.vmx".to_string()));
    t.guest_username(Some("gu".to_string()));
    t.guest_password(Some("gp".to_string()));
    assert_eq!(
        t.start_vm(false).unwrap(),
        vec!["vmrun", "-T", "player", "-gu", "gu", "-gp", "gp", "start", "a.vmx", "nogui"]
    );
    assert_eq!(
        t.stop_vm(Some(false)).unwrap(),
        vec!["vmrun", "-T", "player", "-gu", "gu", "-gp", "gp", "stop", "a.vmx", "soft"]
    );
    assert_eq!(
        t.stop_vm(Some(true)).unwrap(),
        vec!["vmrun", "-T", "player", "-gu", "gu", "-gp", "gp", "stop", "a.vmx", "hard"]
    );
    assert_eq!(
        t.kill_process_in_guest(43).unwrap(),
        vec![
            "vmrun",
            "-T",
            "player",
            "-gu",
            "gu",
            "-gp",
            "gp",
            "killProcessInGuest",
            "a.vmx",
            "43"
        ]
    );
}

#[test]
fn vmrun_requires_a_selected_vm() {
    let t = VmRun::new();
    assert!(t.start_vm(true).is_err());
    assert!(t.list_snapshots().is_err());
}

#[test]
fn vmrun_selection_by_name_and_path() {
    let vms = vec![
        vm(None, Some("one"), Some("one.vmx")),
        vm(None, Some("two"), Some("two.vmx")),
    ];
    let mut t = VmRun::new();
    t.set_vm_by_name(&vms, "two").unwrap();
    assert_eq!(t.vm_path.as_deref(), Some("two.vmx"));
    assert!(t.set_vm_by_name(&vms, "three").is_err());
    let mut t2 = VmRun::new();
    t2.set_vm_by_path(&vms, "one.vmx").unwrap();
    assert_eq!(t2.vm_path.as_deref(), Some("one.vmx"));
    assert!(t2.set_vm_by_id("any").is_err());
}

#[test]
fn vmrun_parses_counted_lists() {
    let vms = VmRun::parse_running_vms("Total running VMs: 2\na.vmx\nb.vmx").unwrap();
    assert_eq!(vms.len(), 2);
    assert_eq!(vms[0].path.as_deref().unwrap(), "a.vmx");
    let sns = VmRun::parse_snapshots("Total snapshots: 1\nsnap1").unwrap();
    assert_eq!(sns.len(), 1);
    assert_eq!(sns[0].name.as_deref().unwrap(), "snap1");
    assert!(VmRun::parse_running_vms("nonsense header").is_err());
    assert_eq!(VmRun::parse_running_vms("").unwrap().len(), 0);
}

#[test]
fn vmrun_parses_guest_answers() {
    assert!(VmRun::parse_file_exists("The file exists.\n").unwrap());
    assert!(!VmRun::parse_file_exists("The file does not exist.").unwrap());
    assert!(VmRun::parse_file_exists("???").is_err());
    assert!(VmRun::parse_directory_exists("The directory exists.").unwrap());
    assert!(VmRun::parse_tools_state("installed").unwrap());
    assert!(VmRun::parse_tools_state("running").unwrap());
    assert!(!VmRun::parse_tools_state("unknown").unwrap());
    assert!(VmRun::parse_tools_state("other").is_err());
    assert_eq!(VmRun::parse_read_variable(String::new()), None);
    assert_eq!(
        VmRun::parse_read_variable("v".to_string()).as_deref(),
        Some("v")
    );
    let procs =
        VmRun::parse_processes("Total running VMs: 1\npid=12, owner=root, cmd=sh -c x, y")
            .unwrap();
    assert_eq!(procs.len(), 1);
    assert_eq!(procs[0].pid, 12);
    assert_eq!(procs[0].owner, "root");
    assert_eq!(procs[0].cmd, "sh -c x, y");
}

#[test]
fn vmrun_parses_version_banner() {
    let s = "banner\ncopyright\nvmrun version 1.17.0 build-17801498\n";
    assert_eq!(VmRun::parse_version(s).unwrap(), "1.17.0 build-17801498");
    assert!(VmRun::parse_version("too\nshort").is_err());
}

#[test]
fn hyperv_escapes_vm_name_on_selection() {
    let mut h = HyperVCmd::new();
    h.vm_name(Some("MSEdge - Win10".to_string()));
    assert_eq!(h.get_vm_name().as_deref(), Some("'MSEdge - Win10'"));
    let cmd = h.start_vm().unwrap();
    assert_eq!(
        cmd,
        vec![
            "powershell",
            "-NoProfile",
            "-NoLogo",
            "-Command",
            "[Threading.Thread]::CurrentThread.CurrentUICulture = 'en-US';",
            "Start-VM",
            "@(",
            "'MSEdge - Win10'",
            ")"
        ]
    );
}

#[test]
fn hyperv_parses_json_answers() {
    assert_eq!(
        HyperVCmd::parse_power_state("{\"State\": 2}").unwrap(),
        VmPowerState::Running
    );
    assert_eq!(
        HyperVCmd::parse_power_state("{\"State\": 3}").unwrap(),
        VmPowerState::Stopped
    );
    assert_eq!(
        HyperVCmd::parse_power_state("{\"State\": 6}").unwrap(),
        VmPowerState::Paused
    );
    assert_eq!(
        HyperVCmd::parse_power_state("{\"State\": 99}").unwrap(),
        VmPowerState::Unknown
    );
    assert!(HyperVCmd::parse_power_state("not json").is_err());
    let vms = HyperVCmd::parse_vm_list(
        "[{\"VMId\":\"id1\",\"Name\":\"n1\"},{\"VMId\":\"id2\",\"Name\":\"n2\"}]",
    )
    .unwrap();
    assert_eq!(vms.len(), 2);
    assert_eq!(vms[1].name.as_deref().unwrap(), "n2");
    let one = HyperVCmd::parse_vm_list("{\"VMId\":\"id1\",\"Name\":\"n1\"}").unwrap();
    assert_eq!(one.len(), 1);
    assert_eq!(HyperVCmd::parse_vm_list("").unwrap().len(), 0);
    let sns = HyperVCmd::parse_snapshot_list(
        "{\"Id\":\"s\",\"Name\":\"snap\",\"Notes\":\"note\"}",
    )
    .unwrap();
    assert_eq!(sns[0].detail.as_deref().unwrap(), "note");
}

#[test]
fn hyperv_transition_warning() {
    let r = HyperVCmd::check_transition_response(
        "WARNING: The virtual machine is already in the specified state.",
        VmPowerState::Running,
    );
    assert!(r.is_err());
    assert!(HyperVCmd::check_transition_response("", VmPowerState::Running).is_ok());
}

#[test]
fn kill_process_formats_the_largest_pid() {
    let mut t = VmRun::new();
    t.vm_path(Some("a.vmx".to_string()));
    let cmd = t.kill_process_in_guest(u32::MAX).unwrap();
    assert_eq!(cmd.last().unwrap(), "4294967295");
}
