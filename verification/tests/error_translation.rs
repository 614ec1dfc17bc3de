//! The per-backend error translators, one fixture per message of each
//! backend's vocabulary, plus the catch-all and determinism.
use hvctrl::hyperv::HyperVCmd;
use hvctrl::types::{ErrorKind, Repr, VmError, VmPowerState};
use hvctrl::virtualbox::VBoxManage;
use hvctrl::vmware::vmrest::VmRest;
use hvctrl::vmware::vmrun::VmRun;

fn kind(k: ErrorKind) -> VmError {
    VmError::from(k)
}

#[test]
fn vmrun_vocabulary() {
    assert_eq!(
        VmRun::handle_error("No Vm name provided"),
        kind(ErrorKind::VmIsNotSpecified)
    );
    assert_eq!(
        VmRun::handle_error("Cannot open VM: x.vmx"),
        kind(ErrorKind::VmNotFound)
    );
    assert_eq!(
        VmRun::handle_error("The virtual machine is not powered on: x"),
        kind(ErrorKind::InvalidPowerState(VmPowerState::NotRunning))
    );
    assert_eq!(
        VmRun::handle_error("A snapshot with the name already exists"),
        kind(ErrorKind::SnapshotExists)
    );
    assert_eq!(
        VmRun::handle_error("Invalid user name or password for the guest OS"),
        kind(ErrorKind::AuthenticationFailed)
    );
    assert_eq!(
        VmRun::handle_error("The VMware Tools are not running in the virtual machine: x"),
        kind(ErrorKind::ServiceIsNotRunning)
    );
    assert_eq!(
        VmRun::handle_error("Unrecognized command: frob"),
        kind(ErrorKind::UnsupportedCommand)
    );
    let unknown = VmRun::handle_error("something new");
    assert_eq!(
        unknown.get_repr(),
        &Repr::Unknown("Unknown error: something new".to_string())
    );
    // Translation is deterministic: the same text maps the same way.
    assert_eq!(unknown, VmRun::handle_error("something new"));
}

#[test]
fn vmrun_check_strips_error_prefix() {
    assert_eq!(
        VmRun::check("Error: Cannot open VM: a".to_string()).unwrap_err(),
        kind(ErrorKind::VmNotFound)
    );
    assert_eq!(
        VmRun::check("plain output".to_string()).unwrap(),
        "plain output"
    );
}

#[test]
fn vbox_vocabulary() {
    assert_eq!(
        VBoxManage::handle_error("Could not find a registered machine named 'a'"),
        kind(ErrorKind::VmNotFound)
    );
    assert_eq!(
        VBoxManage::handle_error("Could not find a snapshot named 's'"),
        kind(ErrorKind::SnapshotNotFound)
    );
    assert_eq!(
        VBoxManage::handle_error("This machine does not have any snapshots"),
        kind(ErrorKind::SnapshotNotFound)
    );
    assert_eq!(
        VBoxManage::handle_error("The specified user was not able to logon on guest"),
        kind(ErrorKind::GuestAuthenticationFailed)
    );
    assert_eq!(
        VBoxManage::handle_error(
            "Waiting for guest process failed: The guest execution service is not ready (yet)"
        ),
        kind(ErrorKind::ServiceIsNotRunning)
    );
    assert_eq!(
        VBoxManage::handle_error("Error starting guest session (current status is: starting)"),
        kind(ErrorKind::ServiceIsNotRunning)
    );
    assert_eq!(
        VBoxManage::handle_error("RTPathQueryInfo failed on /tmp/x"),
        kind(ErrorKind::FileError("/tmp/x".to_string()))
    );
    assert_eq!(
        VBoxManage::handle_error("File /x missing\nsome detail: no such file"),
        kind(ErrorKind::FileError("no such file".to_string()))
    );
    assert_eq!(
        VBoxManage::handle_error("Invalid machine state: PoweredOff"),
        kind(ErrorKind::InvalidPowerState(VmPowerState::Stopped))
    );
    assert_eq!(
        VBoxManage::handle_error("Invalid machine state: Paused"),
        kind(ErrorKind::InvalidPowerState(VmPowerState::Paused))
    );
    assert_eq!(
        VBoxManage::handle_error("Machine in invalid state 1 -- powered off"),
        kind(ErrorKind::InvalidPowerState(VmPowerState::Stopped))
    );
    assert_eq!(
        VBoxManage::handle_error("Machine in invalid state 2 -- saved"),
        kind(ErrorKind::InvalidPowerState(VmPowerState::Suspended))
    );
    assert_eq!(
        VBoxManage::handle_error("The machine 'a' is not currently running"),
        kind(ErrorKind::InvalidPowerState(VmPowerState::NotRunning))
    );
    assert_eq!(
        VBoxManage::handle_error(
            "The machine 'a' is already locked by a session (or being locked or unlocked)"
        ),
        kind(ErrorKind::InvalidPowerState(VmPowerState::Running))
    );
    assert_eq!(
        VBoxManage::handle_error("gibberish").get_repr(),
        &Repr::Unknown("Unknown error: gibberish".to_string())
    );
}

#[test]
fn vbox_check_is_case_insensitive_on_the_prefix() {
    let e = VBoxManage::check(
        "VBoxManage.exe: error: Could not find a registered machine named 'a'".to_string(),
    )
    .unwrap_err();
    assert_eq!(e, kind(ErrorKind::VmNotFound));
    assert_eq!(
        VBoxManage::check("ordinary output".to_string()).unwrap(),
        "ordinary output"
    );
}

#[test]
fn hyperv_vocabulary() {
    assert_eq!(
        HyperVCmd::handle_error("You do not have the required permission to complete it."),
        kind(ErrorKind::PrivilegesRequired)
    );
    assert_eq!(
        HyperVCmd::handle_error("Hyper-V was unable to find a virtual machine with name 'a'."),
        kind(ErrorKind::VmNotFound)
    );
    assert_eq!(
        HyperVCmd::handle_error(
            "The operation cannot be performed while the virtual machine is in its current state."
        ),
        kind(ErrorKind::InvalidPowerState(VmPowerState::Unknown))
    );
    assert_eq!(
        HyperVCmd::handle_error("Unable to find a snapshot matching the given criteria."),
        kind(ErrorKind::SnapshotNotFound)
    );
    assert_eq!(
        HyperVCmd::handle_error("Access to the path 'C:\\x' is denied."),
        kind(ErrorKind::PermissionDenied)
    );
    assert_eq!(
        HyperVCmd::handle_error("Cannot validate argument on parameter 'Name'. The argument is null."),
        kind(ErrorKind::InvalidParameter("Name".to_string()))
    );
    assert_eq!(
        HyperVCmd::handle_error("odd").get_repr(),
        &Repr::Unknown("Unknown error: odd".to_string())
    );
}

#[test]
fn hyperv_check_uses_cmdlet_prefix() {
    let e = HyperVCmd::check(
        "Start-VM : Hyper-V was unable to find a virtual machine with name 'a'.".to_string(),
        "Start-VM",
    )
    .unwrap_err();
    assert_eq!(e, kind(ErrorKind::VmNotFound));
    assert_eq!(
        HyperVCmd::check("fine".to_string(), "Start-VM").unwrap(),
        "fine"
    );
}

#[test]
fn vmrest_vocabulary() {
    assert_eq!(
        VmRest::handle_json_error("Redundant parameter: name"),
        kind(ErrorKind::InvalidParameter("name".to_string()))
    );
    assert_eq!(
        VmRest::handle_json_error("One of the parameters was invalid: vmnet"),
        kind(ErrorKind::InvalidParameter("vmnet".to_string()))
    );
    assert_eq!(
        VmRest::handle_json_error("Authentication failed"),
        kind(ErrorKind::AuthenticationFailed)
    );
    assert_eq!(
        VmRest::handle_json_error("The virtual machine is not powered on"),
        kind(ErrorKind::InvalidPowerState(VmPowerState::NotRunning))
    );
    assert_eq!(
        VmRest::handle_json_error("The virtual network cannot be found"),
        kind(ErrorKind::NetworkNotFound)
    );
    assert_eq!(
        VmRest::handle_json_error("The network adapter cannot be found"),
        kind(ErrorKind::NetworkAdaptorNotFound)
    );
    assert_eq!(
        VmRest::handle_json_error("??").get_repr(),
        &Repr::Unknown("Unknown error: ??".to_string())
    );
}

#[test]
fn vmrest_envelope_and_passthrough() {
    let e =
        VmRest::handle_error("{\"code\": 107, \"message\": \"Authentication failed\"}".to_string())
            .unwrap_err();
    assert_eq!(e, kind(ErrorKind::AuthenticationFailed));
    assert_eq!(
        VmRest::handle_error("404 page not found".to_string()).unwrap_err(),
        kind(ErrorKind::UnsupportedCommand)
    );
    assert_eq!(
        VmRest::handle_error("no envelope here".to_string()).unwrap(),
        "no envelope here"
    );
}
