//! The HTTP backend's request construction and answer interpretation.
use hvctrl::types::{ErrorKind, NicType, SharedFolder, VmError, VmPowerState};
use hvctrl::vmware::vmrest::{VmRest, VmRestPowerCommand};

#[test]
fn urls_are_built_from_the_configuration() {
    let mut v = VmRest::new();
    v.url("http://127.0.0.1:8697".to_string());
    v.vm_id(Some("ABC123".to_string()));
    assert_eq!(v.vms_url(), "http://127.0.0.1:8697/api/vms");
    assert_eq!(
        v.power_url().unwrap(),
        "http://127.0.0.1:8697/api/vms/ABC123/power"
    );
    assert_eq!(v.ip_url().unwrap(), "http://127.0.0.1:8697/api/vms/ABC123/ip");
    assert_eq!(
        v.nic_index_url(7).unwrap(),
        "http://127.0.0.1:8697/api/vms/ABC123/nic/7"
    );
    assert_eq!(
        v.sharedfolder_url("sf1").unwrap(),
        "http://127.0.0.1:8697/api/vms/ABC123/sharedfolders/sf1"
    );
    assert_eq!(
        v.version_url(),
        "http://127.0.0.1:8697/json/swagger.json"
    );
}

#[test]
fn operations_require_a_selected_vm() {
    let v = VmRest::new();
    assert_eq!(
        v.power_url().unwrap_err(),
        VmError::from(ErrorKind::VmIsNotSpecified)
    );
}

#[test]
fn power_commands_and_states() {
    assert_eq!(VmRestPowerCommand::On.to_command(), "on");
    assert_eq!(VmRestPowerCommand::Shutdown.to_command(), "shutdown");
    assert_eq!(
        VmRest::parse_power_state("{\"power_state\": \"poweredOn\"}").unwrap(),
        VmPowerState::Running
    );
    assert_eq!(
        VmRest::parse_power_state("{\"power_state\": \"poweredOff\"}").unwrap(),
        VmPowerState::Stopped
    );
    assert_eq!(
        VmRest::parse_power_state("{\"power_state\": \"suspended\"}").unwrap(),
        VmPowerState::Suspended
    );
    assert!(VmRest::parse_power_state("{\"power_state\": \"odd\"}").is_err());
    assert!(VmRest::parse_power_state("{}").is_err());
    assert_eq!(
        VmRest::expected_power_state(Ok(VmPowerState::Running), VmPowerState::Running),
        Ok(())
    );
    assert_eq!(
        VmRest::expected_power_state(Ok(VmPowerState::Stopped), VmPowerState::Running),
        Err(VmError::from(ErrorKind::InvalidPowerState(VmPowerState::Stopped)))
    );
}

#[test]
fn vm_listing_and_lookup() {
    let vms = VmRest::parse_vms(
        "[{\"id\":\"i1\",\"path\":\"p1.vmx\"},{\"id\":\"i2\",\"path\":\"p2.vmx\"}]",
    )
    .unwrap();
    assert_eq!(vms.len(), 2);
    assert_eq!(
        VmRest::get_vm_id_by_path(&vms, "p2.vmx").unwrap(),
        "i2"
    );
    assert_eq!(
        VmRest::get_vm_id_by_path(&vms, "zzz").unwrap_err(),
        VmError::from(ErrorKind::VmNotFound)
    );
}

#[test]
fn display_name_from_config_text() {
    let text = "memsize = \"4096\"\ndisplayName = \"My VM\"\nother = \"x\"\n";
    assert_eq!(
        VmRest::get_display_name_from_vmx(text).as_deref(),
        Some("My VM")
    );
    assert_eq!(
        VmRest::get_display_name_from_vmx("displayName = \"\"\n").as_deref(),
        Some("")
    );
    assert_eq!(VmRest::get_display_name_from_vmx("displayName = \""), None);
    assert_eq!(VmRest::get_display_name_from_vmx("nothing here"), None);
}

#[test]
fn ip_and_nics_and_folders() {
    assert_eq!(
        VmRest::parse_ip_address("{\"ip\": \"192.168.0.4\"}").unwrap(),
        "192.168.0.4"
    );
    let nics = VmRest::parse_nics(
        "{\"num\": 1, \"nics\": [{\"index\": 1, \"type\": \"bridged\", \"vmnet\": \"vmnet0\", \"macAddress\": \"aa:bb\"}]}",
    )
    .unwrap();
    assert_eq!(nics.len(), 1);
    assert_eq!(nics[0].id.as_deref().unwrap(), "1");
    assert_eq!(nics[0].ty, Some(NicType::Bridge));
    assert!(VmRest::parse_nics("{\"num\": 2, \"nics\": []}").is_err());
    let sf = VmRest::parse_shared_folders(
        "[{\"folder_id\": \"sf\", \"host_path\": \"C:\\\\x\", \"flags\": 4}]",
    )
    .unwrap();
    assert_eq!(sf[0].id.as_deref().unwrap(), "sf");
    assert!(!sf[0].is_readonly);
}

#[test]
fn request_bodies_frame_values_safely() {
    assert_eq!(
        VmRest::nic_request_body(&NicType::NAT),
        "{\"type\":\"nat\",\"vmnet\":null}"
    );
    assert_eq!(
        VmRest::nic_request_body(&NicType::Custom("a\"b".to_string())),
        "{\"type\":\"custom\",\"vmnet\":\"a\\\"b\"}"
    );
    let shfs = vec![SharedFolder {
        id: Some("sf".to_string()),
        name: None,
        guest_path: None,
        host_path: Some("C:\\x".to_string()),
        is_readonly: true,
    }];
    assert_eq!(
        VmRest::shared_folders_body(&shfs).unwrap(),
        "[{\"folder_id\":\"sf\",\"host_path\":\"C:\\\\x\",\"flags\":0}]"
    );
}

#[test]
fn single_nic_answer_parses() {
    let nic = VmRest::parse_nic(
        "{\"index\": 2, \"type\": \"nat\", \"vmnet\": \"vmnet8\", \"macAddress\": \"de:ad\"}",
    )
    .unwrap();
    assert_eq!(nic.id.as_deref().unwrap(), "2");
    assert_eq!(nic.ty, Some(NicType::NAT));
    assert!(VmRest::parse_nic("{\"index\": 2}").is_err());
}

#[test]
fn control_characters_are_escaped_numerically() {
    assert_eq!(
        VmRest::nic_request_body(&NicType::Custom("a\u{1}b".to_string())),
        "{\"type\":\"custom\",\"vmnet\":\"a\\u0001b\"}"
    );
}

#[test]
fn version_is_cut_from_the_description() {
    let doc = "{\"info\": {\"description\": \"VMware Workstation REST API 1.3.0\", \"title\": \"x\"}}";
    assert_eq!(
        VmRest::parse_version(doc).unwrap(),
        "VMware Workstation REST API 1.3.0"
    );
    assert!(VmRest::parse_version("{}").is_err());
}
