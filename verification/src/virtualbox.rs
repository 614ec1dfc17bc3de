//! The local management-tool backend for the first hypervisor product: it
//! addresses a VM by name or id, builds one command line per operation,
//! and parses the tool's machine-readable output — a quoted single-line VM
//! list and a multi-record snapshot descriptor dump with continuation
//! lines — into the shared data model. Its error translator classifies
//! the tool's diagnostic text by prefix and substring rules.
//!
//! The struct here builds the exact command line to run and interprets
//! the captured output; the host program executes the tool.
use crate::convergence::{AttemptOutcome, Decision};
use crate::text::{
    contains_seq, contains_str, ends_with_str, find_char, first_idx_of, hex_spec, is_ci_prefix,
    is_prefix_of, is_suffix_of, is_wspace, last_idx_of, lemma_first_idx_is, lemma_first_idx_of,
    lemma_last_idx_is, lemma_last_idx_of, lemma_lines_from_append, lemma_lines_nonempty,
    lemma_lines_split_at_nl, lemma_lines_trailing_nl, lemma_prefix_trans,
    lines_from, lines_spec, rfind_char, split_lines, starts_with_ci, starts_with_str,
    strip_prefix_str, trim_spec, trim_str,
};
use crate::types::{
    err_is, err_is_file_error, err_is_invalid_parameter, err_is_invalid_state, err_is_unexpected,
    err_is_unknown,
    ErrorKind, Repr, Snapshot, Vm, VmError, VmPowerState, VmResult,
};
use vstd::prelude::*;
use vstd::string::*;

verus! {

/// The management tool's configuration: where its executable lives, which
/// VM is selected, and the guest credentials for guest-control calls.
#[derive(Debug, Clone)]
pub struct VBoxManage {
    pub executable_path: String,
    pub vm_name: Option<String>,
    pub guest_username: Option<String>,
    pub guest_password: Option<String>,
    pub guest_password_file: Option<String>,
    pub guest_domain: Option<String>,
}

impl Default for VBoxManage {
    /// The default configuration: the bare executable name on the search
    /// path, no VM selected, no credentials.
    fn default() -> (r: Self)
        ensures
            r.executable_path@ == "vboxmanage"@,
            r.vm_name is None,
            r.guest_username is None,
            r.guest_password is None,
            r.guest_password_file is None,
            r.guest_domain is None,
    {
        Self::new()
    }
}

impl VBoxManage {
    /// A fresh configuration with nothing selected.
    pub fn new() -> (r: Self)
        ensures
            r.executable_path@ == "vboxmanage"@,
            r.vm_name is None,
            r.guest_username is None,
            r.guest_password is None,
            r.guest_password_file is None,
            r.guest_domain is None,
    {
        VBoxManage {
            executable_path: String::from_str("vboxmanage"),
            vm_name: None,
            guest_username: None,
            guest_password: None,
            guest_password_file: None,
            guest_domain: None,
        }
    }

    /// Sets the path to the management executable.
    pub fn executable_path(&mut self, executable_path: String)
        ensures
            *final(self) == (VBoxManage { executable_path, ..*old(self) }),
    {
        self.executable_path = executable_path;
    }

    pub fn get_executable_path(&self) -> (r: &String)
        ensures
            r == self.executable_path,
    {
        &self.executable_path
    }

    /// Selects the VM to be manipulated, by name or id.
    pub fn vm_name(&mut self, vm_name: Option<String>)
        ensures
            *final(self) == (VBoxManage { vm_name, ..*old(self) }),
    {
        self.vm_name = vm_name;
    }

    pub fn get_vm_name(&self) -> (r: &Option<String>)
        ensures
            r == self.vm_name,
    {
        &self.vm_name
    }

    /// Sets the guest username for guest-control calls.
    pub fn guest_username(&mut self, guest_username: Option<String>)
        ensures
            *final(self) == (VBoxManage { guest_username, ..*old(self) }),
    {
        self.guest_username = guest_username;
    }

    pub fn get_guest_username(&self) -> (r: &Option<String>)
        ensures
            r == self.guest_username,
    {
        &self.guest_username
    }

    /// Sets the guest password for guest-control calls.
    pub fn guest_password(&mut self, guest_password: Option<String>)
        ensures
            *final(self) == (VBoxManage { guest_password, ..*old(self) }),
    {
        self.guest_password = guest_password;
    }

    pub fn get_guest_password(&self) -> (r: &Option<String>)
        ensures
            r == self.guest_password,
    {
        &self.guest_password
    }

    /// Sets the absolute path of the guest password file.
    pub fn guest_password_file(&mut self, guest_password_file: Option<String>)
        ensures
            *final(self) == (VBoxManage { guest_password_file, ..*old(self) }),
    {
        self.guest_password_file = guest_password_file;
    }

    pub fn get_guest_password_file(&self) -> (r: &Option<String>)
        ensures
            r == self.guest_password_file,
    {
        &self.guest_password_file
    }

    /// Sets the guest domain for Windows guests.
    pub fn guest_domain(&mut self, guest_domain: Option<String>)
        ensures
            *final(self) == (VBoxManage { guest_domain, ..*old(self) }),
    {
        self.guest_domain = guest_domain;
    }

    pub fn get_guest_domain(&self) -> (r: &Option<String>)
        ensures
            r == self.guest_domain,
    {
        &self.guest_domain
    }

    /// The selected VM, or the error every operation that needs one
    /// returns when none is selected.
    fn get_vm(&self) -> (r: VmResult<&String>)
        ensures
            match r {
                Ok(v) => self.vm_name matches Some(n) && v == n,
                Err(e) => self.vm_name is None && err_is(e, ErrorKind::VmIsNotSpecified),
            },
    {
        match &self.vm_name {
            Some(v) => Ok(v),
            None => Err(VmError::from(ErrorKind::VmIsNotSpecified)),
        }
    }

    /// The guest-credential arguments that a guest-control command carries:
    /// each configured credential contributes its flag and value, in a
    /// fixed order.
    pub open spec fn auth_args_spec(self) -> Seq<Seq<char>> {
        (if self.guest_username is Some {
            seq!["--username"@, self.guest_username->0@]
        } else {
            Seq::empty()
        }) + (if self.guest_password is Some {
            seq!["--password"@, self.guest_password->0@]
        } else {
            Seq::empty()
        }) + (if self.guest_password_file is Some {
            seq!["--passwordfile"@, self.guest_password_file->0@]
        } else {
            Seq::empty()
        }) + (if self.guest_domain is Some {
            seq!["--domain"@, self.guest_domain->0@]
        } else {
            Seq::empty()
        })
    }

    fn build_auth(&self) -> (r: Vec<String>)
        ensures
            r.deep_view() == self.auth_args_spec(),
    {
        let mut v: Vec<String> = Vec::new();
        if let Some(x) = &self.guest_username {
            v.push(String::from_str("--username"));
            v.push(x.clone());
        }
        if let Some(x) = &self.guest_password {
            v.push(String::from_str("--password"));
            v.push(x.clone());
        }
        if let Some(x) = &self.guest_password_file {
            v.push(String::from_str("--passwordfile"));
            v.push(x.clone());
        }
        if let Some(x) = &self.guest_domain {
            v.push(String::from_str("--domain"));
            v.push(x.clone());
        }
        proof {
            assert(v.deep_view() =~~= self.auth_args_spec());
        }
        v
    }

    /// The command line that asks the tool for its version.
    pub fn version(&self) -> (r: Vec<String>)
        ensures
            r.deep_view() == seq![self.executable_path@, "-v"@],
    {
        let mut v: Vec<String> = Vec::new();
        v.push(self.executable_path.clone());
        v.push(String::from_str("-v"));
        proof {
            assert(v.deep_view() =~~= seq![self.executable_path@, "-v"@]);
        }
        v
    }

    /// The tool's version from its output: the text with surrounding
    /// whitespace removed.
    pub fn parse_version(s: &str) -> (r: String)
        ensures
            r@ == trim_spec(s@),
    {
        trim_str(s).to_owned()
    }

    /// The command line that lists the registered VMs.
    pub fn list_vms(&self) -> (r: Vec<String>)
        ensures
            r.deep_view() == seq![self.executable_path@, "list"@, "vms"@],
    {
        let mut v: Vec<String> = Vec::new();
        v.push(self.executable_path.clone());
        v.push(String::from_str("list"));
        v.push(String::from_str("vms"));
        proof {
            assert(v.deep_view() =~~= seq![self.executable_path@, "list"@, "vms"@]);
        }
        v
    }

    /// The command line that shows the machine-readable information of the
    /// VM registered under `id`.
    pub fn show_vm_info2(&self, id: &str) -> (r: Vec<String>)
        ensures
            r.deep_view() == seq![self.executable_path@, "showvminfo"@, id@, "--machinereadable"@],
    {
        let mut v: Vec<String> = Vec::new();
        v.push(self.executable_path.clone());
        v.push(String::from_str("showvminfo"));
        v.push(id.to_owned());
        v.push(String::from_str("--machinereadable"));
        proof {
            assert(v.deep_view() =~~= seq![
                self.executable_path@,
                "showvminfo"@,
                id@,
                "--machinereadable"@,
            ]);
        }
        v
    }

    /// The command line that shows the machine-readable information of the
    /// selected VM.
    pub fn show_vm_info(&self) -> (r: VmResult<Vec<String>>)
        ensures
            match r {
                Ok(v) => self.vm_name matches Some(n) && v.deep_view() == seq![
                    self.executable_path@,
                    "showvminfo"@,
                    n@,
                    "--machinereadable"@,
                ],
                Err(e) => self.vm_name is None && err_is(e, ErrorKind::VmIsNotSpecified),
            },
    {
        let vm = match self.get_vm() {
            Ok(v) => v,
            Err(e) => {
                return Err(e);
            },
        };
        Ok(self.show_vm_info2(vm.as_str()))
    }

    /// The command line that starts the selected VM.
    pub fn start_vm(&self) -> (r: VmResult<Vec<String>>)
        ensures
            match r {
                Ok(v) => self.vm_name matches Some(n) && v.deep_view() == seq![
                    self.executable_path@,
                    "startvm"@,
                    n@,
                ],
                Err(e) => self.vm_name is None && err_is(e, ErrorKind::VmIsNotSpecified),
            },
    {
        let vm = match self.get_vm() {
            Ok(v) => v,
            Err(e) => {
                return Err(e);
            },
        };
        let mut v: Vec<String> = Vec::new();
        v.push(self.executable_path.clone());
        v.push(String::from_str("startvm"));
        v.push(vm.clone());
        proof {
            assert(v.deep_view() =~~= seq![self.executable_path@, "startvm"@, vm@]);
        }
        Ok(v)
    }

    fn controlvm(&self, sub: &str) -> (r: VmResult<Vec<String>>)
        ensures
            match r {
                Ok(v) => self.vm_name matches Some(n) && v.deep_view() == seq![
                    self.executable_path@,
                    "controlvm"@,
                    n@,
                    sub@,
                ],
                Err(e) => self.vm_name is None && err_is(e, ErrorKind::VmIsNotSpecified),
            },
    {
        let vm = match self.get_vm() {
            Ok(v) => v,
            Err(e) => {
                return Err(e);
            },
        };
        let mut v: Vec<String> = Vec::new();
        v.push(self.executable_path.clone());
        v.push(String::from_str("controlvm"));
        v.push(vm.clone());
        v.push(sub.to_owned());
        proof {
            assert(v.deep_view() =~~= seq![self.executable_path@, "controlvm"@, vm@, sub@]);
        }
        Ok(v)
    }

    /// The command line that powers the selected VM off hard.
    pub fn poweroff_vm(&self) -> (r: VmResult<Vec<String>>)
        ensures
            match r {
                Ok(v) => self.vm_name matches Some(n) && v.deep_view() == seq![
                    self.executable_path@,
                    "controlvm"@,
                    n@,
                    "poweroff"@,
                ],
                Err(e) => self.vm_name is None && err_is(e, ErrorKind::VmIsNotSpecified),
            },
    {
        self.controlvm("poweroff")
    }

    /// The command line that sends the selected VM an ACPI shutdown
    /// signal. If the VM is running the tool reports success whether or
    /// not the VM actually shuts down.
    pub fn acpi_power_button_vm(&self) -> (r: VmResult<Vec<String>>)
        ensures
            match r {
                Ok(v) => self.vm_name matches Some(n) && v.deep_view() == seq![
                    self.executable_path@,
                    "controlvm"@,
                    n@,
                    "acpipowerbutton"@,
                ],
                Err(e) => self.vm_name is None && err_is(e, ErrorKind::VmIsNotSpecified),
            },
    {
        self.controlvm("acpipowerbutton")
    }

    /// The command line that resets the selected VM.
    pub fn reset_vm(&self) -> (r: VmResult<Vec<String>>)
        ensures
            match r {
                Ok(v) => self.vm_name matches Some(n) && v.deep_view() == seq![
                    self.executable_path@,
                    "controlvm"@,
                    n@,
                    "reset"@,
                ],
                Err(e) => self.vm_name is None && err_is(e, ErrorKind::VmIsNotSpecified),
            },
    {
        self.controlvm("reset")
    }

    /// The command line that pauses the selected VM.
    pub fn pause_vm(&self) -> (r: VmResult<Vec<String>>)
        ensures
            match r {
                Ok(v) => self.vm_name matches Some(n) && v.deep_view() == seq![
                    self.executable_path@,
                    "controlvm"@,
                    n@,
                    "pause"@,
                ],
                Err(e) => self.vm_name is None && err_is(e, ErrorKind::VmIsNotSpecified),
            },
    {
        self.controlvm("pause")
    }

    /// The command line that resumes the paused selected VM.
    pub fn resume_vm(&self) -> (r: VmResult<Vec<String>>)
        ensures
            match r {
                Ok(v) => self.vm_name matches Some(n) && v.deep_view() == seq![
                    self.executable_path@,
                    "controlvm"@,
                    n@,
                    "resume"@,
                ],
                Err(e) => self.vm_name is None && err_is(e, ErrorKind::VmIsNotSpecified),
            },
    {
        self.controlvm("resume")
    }

    /// The command line that saves the selected VM's state and stops it.
    pub fn save_state_vm(&self) -> (r: VmResult<Vec<String>>)
        ensures
            match r {
                Ok(v) => self.vm_name matches Some(n) && v.deep_view() == seq![
                    self.executable_path@,
                    "controlvm"@,
                    n@,
                    "savestate"@,
                ],
                Err(e) => self.vm_name is None && err_is(e, ErrorKind::VmIsNotSpecified),
            },
    {
        self.controlvm("savestate")
    }

    fn snapshot_cmd(&self, sub: &str, name: Option<&str>) -> (r: VmResult<Vec<String>>)
        ensures
            match r {
                Ok(v) => self.vm_name matches Some(n) && v.deep_view() == seq![
                    self.executable_path@,
                    "snapshot"@,
                    n@,
                    sub@,
                ] + (match name {
                    Some(x) => seq![x@],
                    None => Seq::empty(),
                }),
                Err(e) => self.vm_name is None && err_is(e, ErrorKind::VmIsNotSpecified),
            },
    {
        let vm = match self.get_vm() {
            Ok(v) => v,
            Err(e) => {
                return Err(e);
            },
        };
        let mut v: Vec<String> = Vec::new();
        v.push(self.executable_path.clone());
        v.push(String::from_str("snapshot"));
        v.push(vm.clone());
        v.push(sub.to_owned());
        if let Some(x) = name {
            v.push(x.to_owned());
        }
        proof {
            assert(v.deep_view() =~~= seq![self.executable_path@, "snapshot"@, vm@, sub@] + (
            match name {
                Some(x) => seq![x@],
                None => Seq::<Seq<char>>::empty(),
            }));
        }
        Ok(v)
    }

    /// The command line that deletes the snapshot called `name`.
    pub fn delete_snapshot(&self, name: &str) -> (r: VmResult<Vec<String>>)
        ensures
            match r {
                Ok(v) => self.vm_name matches Some(n) && v.deep_view() == seq![
                    self.executable_path@,
                    "snapshot"@,
                    n@,
                    "delete"@,
                    name@,
                ],
                Err(e) => self.vm_name is None && err_is(e, ErrorKind::VmIsNotSpecified),
            },
    {
        let r = self.snapshot_cmd("delete", Some(name));
        proof {
            if r is Ok {
                assert(r->Ok_0.deep_view() =~~= seq![
                    self.executable_path@,
                    "snapshot"@,
                    self.vm_name->0@,
                    "delete"@,
                    name@,
                ]);
            }
        }
        r
    }

    /// The command line that restores the snapshot called `name`.
    pub fn restore_snapshot(&self, name: &str) -> (r: VmResult<Vec<String>>)
        ensures
            match r {
                Ok(v) => self.vm_name matches Some(n) && v.deep_view() == seq![
                    self.executable_path@,
                    "snapshot"@,
                    n@,
                    "restore"@,
                    name@,
                ],
                Err(e) => self.vm_name is None && err_is(e, ErrorKind::VmIsNotSpecified),
            },
    {
        let r = self.snapshot_cmd("restore", Some(name));
        proof {
            if r is Ok {
                assert(r->Ok_0.deep_view() =~~= seq![
                    self.executable_path@,
                    "snapshot"@,
                    self.vm_name->0@,
                    "restore"@,
                    name@,
                ]);
            }
        }
        r
    }

    /// The command line that restores the current snapshot.
    pub fn restore_current_snapshot(&self) -> (r: VmResult<Vec<String>>)
        ensures
            match r {
                Ok(v) => self.vm_name matches Some(n) && v.deep_view() == seq![
                    self.executable_path@,
                    "snapshot"@,
                    n@,
                    "restorecurrent"@,
                ],
                Err(e) => self.vm_name is None && err_is(e, ErrorKind::VmIsNotSpecified),
            },
    {
        let r = self.snapshot_cmd("restorecurrent", None);
        proof {
            if r is Ok {
                assert(r->Ok_0.deep_view() =~~= seq![
                    self.executable_path@,
                    "snapshot"@,
                    self.vm_name->0@,
                    "restorecurrent"@,
                ]);
            }
        }
        r
    }

    /// The command line that lists the snapshots of the selected VM in the
    /// machine-readable descriptor format.
    pub fn list_snapshots(&self) -> (r: VmResult<Vec<String>>)
        ensures
            match r {
                Ok(v) => self.vm_name matches Some(n) && v.deep_view() == seq![
                    self.executable_path@,
                    "snapshot"@,
                    n@,
                    "list"@,
                    "--machinereadable"@,
                ],
                Err(e) => self.vm_name is None && err_is(e, ErrorKind::VmIsNotSpecified),
            },
    {
        let vm = match self.get_vm() {
            Ok(v) => v,
            Err(e) => {
                return Err(e);
            },
        };
        let mut v: Vec<String> = Vec::new();
        v.push(self.executable_path.clone());
        v.push(String::from_str("snapshot"));
        v.push(vm.clone());
        v.push(String::from_str("list"));
        v.push(String::from_str("--machinereadable"));
        proof {
            assert(v.deep_view() =~~= seq![
                self.executable_path@,
                "snapshot"@,
                vm@,
                "list"@,
                "--machinereadable"@,
            ]);
        }
        Ok(v)
    }

    /// The command line that takes a snapshot called `name`, with an
    /// optional description, live when `is_live` is set.
    pub fn take_snapshot(&self, name: &str, description: Option<&str>, is_live: bool) -> (r:
        VmResult<Vec<String>>)
        ensures
            match r {
                Ok(v) => self.vm_name matches Some(n) && v.deep_view() == seq![
                    self.executable_path@,
                    "snapshot"@,
                    n@,
                    "take"@,
                    name@,
                ] + (match description {
                    Some(d) => seq!["--description"@, d@],
                    None => Seq::empty(),
                }) + (if is_live {
                    seq!["--live"@]
                } else {
                    Seq::empty()
                }),
                Err(e) => self.vm_name is None && err_is(e, ErrorKind::VmIsNotSpecified),
            },
    {
        let vm = match self.get_vm() {
            Ok(v) => v,
            Err(e) => {
                return Err(e);
            },
        };
        let mut v: Vec<String> = Vec::new();
        v.push(self.executable_path.clone());
        v.push(String::from_str("snapshot"));
        v.push(vm.clone());
        v.push(String::from_str("take"));
        v.push(name.to_owned());
        if let Some(d) = description {
            v.push(String::from_str("--description"));
            v.push(d.to_owned());
        }
        if is_live {
            v.push(String::from_str("--live"));
        }
        proof {
            assert(v.deep_view() =~~= seq![
                self.executable_path@,
                "snapshot"@,
                vm@,
                "take"@,
                name@,
            ] + (match description {
                Some(d) => seq!["--description"@, d@],
                None => Seq::<Seq<char>>::empty(),
            }) + (if is_live {
                seq!["--live"@]
            } else {
                Seq::<Seq<char>>::empty()
            }));
        }
        Ok(v)
    }
}

/// The error the tool's diagnostic text `s` classifies to, matched by the
/// tool's own message vocabulary: first match wins, unmatched text is kept
/// verbatim in the catch-all.
pub open spec fn vbox_error_spec(s: Seq<char>, e: VmError) -> bool {
    if is_prefix_of("Could not find a registered machine named"@, s) {
        err_is(e, ErrorKind::VmNotFound)
    } else if is_prefix_of("Could not find a snapshot named "@, s) {
        err_is(e, ErrorKind::SnapshotNotFound)
    } else if is_prefix_of("This machine does not have any snapshots"@, s) {
        err_is(e, ErrorKind::SnapshotNotFound)
    } else if is_prefix_of("The specified user was not able to logon on guest"@, s) {
        err_is(e, ErrorKind::GuestAuthenticationFailed)
    } else if is_prefix_of(
        "Waiting for guest process failed: The guest execution service is not ready (yet)"@,
        s,
    ) {
        err_is(e, ErrorKind::ServiceIsNotRunning)
    } else if is_prefix_of("Error starting guest session (current status is:"@, s) {
        err_is(e, ErrorKind::ServiceIsNotRunning)
    } else if is_prefix_of("FsObjQueryInfo failed on"@, s) || is_prefix_of("File "@, s) {
        let ll = lines_spec(s).last();
        let ci = last_idx_of(ll, ':');
        if 0 <= ci && ci + 2 <= ll.len() {
            err_is_file_error(e, ll.subrange(ci + 2, ll.len() as int))
        } else {
            err_is_unknown(e, "Unknown error: "@ + s)
        }
    } else if is_prefix_of("RTPathQueryInfo failed on "@, s) {
        err_is_file_error(
            e,
            s.subrange("RTPathQueryInfo failed on "@.len() as int, s.len() as int),
        )
    } else if is_prefix_of("Invalid machine state: PoweredOff"@, s) {
        err_is_invalid_state(e, VmPowerState::Stopped)
    } else if is_prefix_of("Invalid machine state: Paused"@, s) {
        err_is_invalid_state(e, VmPowerState::Paused)
    } else if is_prefix_of("Machine in invalid state 1 -- powered off"@, s) {
        err_is_invalid_state(e, VmPowerState::Stopped)
    } else if is_prefix_of("Machine in invalid state 2 -- saved"@, s) {
        err_is_invalid_state(e, VmPowerState::Suspended)
    } else if is_suffix_of(" is not currently running"@, s) || contains_seq(
        s,
        "is not running"@,
    ) {
        err_is_invalid_state(e, VmPowerState::NotRunning)
    } else if s.len() > 0 && is_suffix_of(
        "is already locked by a session (or being locked or unlocked)"@,
        lines_spec(s)[0],
    ) {
        err_is_invalid_state(e, VmPowerState::Running)
    } else {
        err_is_unknown(e, "Unknown error: "@ + s)
    }
}

/// Law: error translation is deterministic and total. Every diagnostic
/// text classifies, and any two errors classified from the same text are
/// the same error.
pub proof fn lemma_vbox_classification_unique(s: Seq<char>, e1: VmError, e2: VmError)
    requires
        vbox_error_spec(s, e1),
        vbox_error_spec(s, e2),
    ensures
        crate::types::vm_error_eq(e1, e2),
{
}

/// The unrecognized-message catch-all for `s`.
fn unknown_error(s: &str) -> (r: VmError)
    ensures
        err_is_unknown(r, "Unknown error: "@ + s@),
{
    let mut t = String::from_str("Unknown error: ");
    t.append(s);
    VmError::from(Repr::Unknown(t))
}

impl VBoxManage {
    /// Classifies one diagnostic message of the tool, first match wins;
    /// unmatched text is preserved verbatim.
    pub fn handle_error(s: &str) -> (r: VmError)
        ensures
            vbox_error_spec(s@, r),
    {
        if starts_with_str(s, "Could not find a registered machine named") {
            return VmError::from(ErrorKind::VmNotFound);
        }
        if starts_with_str(s, "Could not find a snapshot named ") {
            return VmError::from(ErrorKind::SnapshotNotFound);
        }
        if starts_with_str(s, "This machine does not have any snapshots") {
            return VmError::from(ErrorKind::SnapshotNotFound);
        }
        if starts_with_str(s, "The specified user was not able to logon on guest") {
            return VmError::from(ErrorKind::GuestAuthenticationFailed);
        }
        if starts_with_str(
            s,
            "Waiting for guest process failed: The guest execution service is not ready (yet)",
        ) {
            return VmError::from(ErrorKind::ServiceIsNotRunning);
        }
        if starts_with_str(s, "Error starting guest session (current status is:") {
            return VmError::from(ErrorKind::ServiceIsNotRunning);
        }
        if starts_with_str(s, "FsObjQueryInfo failed on") || starts_with_str(s, "File ") {
            proof {
                reveal_strlit("FsObjQueryInfo failed on");
                reveal_strlit("File ");
                lemma_lines_nonempty(s@);
            }
            let lines = split_lines(s);
            proof {
                assert(lines.deep_view().len() == lines@.len());
            }
            let ll: &String = &lines[lines.len() - 1];
            proof {
                assert(ll@ == lines.deep_view()[lines@.len() - 1]);
                assert(ll@ == lines_spec(s@).last());
                lemma_last_idx_of(ll@, ':');
            }
            let lllen: usize = ll.as_str().unicode_len();
            match rfind_char(ll.as_str(), ':') {
                Some(ci) => {
                    if lllen >= 2 && ci <= lllen - 2 {
                        let detail = ll.as_str().substring_char(ci + 2, lllen);
                        return VmError::from(ErrorKind::FileError(detail.to_owned()));
                    }
                    return unknown_error(s);
                },
                None => {
                    return unknown_error(s);
                },
            }
        }
        match strip_prefix_str(s, "RTPathQueryInfo failed on ") {
            Some(rest) => {
                return VmError::from(ErrorKind::FileError(rest.to_owned()));
            },
            None => {},
        }
        if starts_with_str(s, "Invalid machine state: PoweredOff") {
            return VmError::from(ErrorKind::InvalidPowerState(VmPowerState::Stopped));
        }
        if starts_with_str(s, "Invalid machine state: Paused") {
            return VmError::from(ErrorKind::InvalidPowerState(VmPowerState::Paused));
        }
        if starts_with_str(s, "Machine in invalid state 1 -- powered off") {
            return VmError::from(ErrorKind::InvalidPowerState(VmPowerState::Stopped));
        }
        if starts_with_str(s, "Machine in invalid state 2 -- saved") {
            return VmError::from(ErrorKind::InvalidPowerState(VmPowerState::Suspended));
        }
        if ends_with_str(s, " is not currently running") || contains_str(s, "is not running") {
            return VmError::from(ErrorKind::InvalidPowerState(VmPowerState::NotRunning));
        }
        let slen: usize = s.unicode_len();
        if slen > 0 {
            proof {
                lemma_lines_nonempty(s@);
            }
            let lines = split_lines(s);
            proof {
                assert(lines.deep_view().len() == lines@.len());
            }
            let first: &String = &lines[0];
            proof {
                assert(first@ == lines.deep_view()[0]);
                assert(first@ == lines_spec(s@)[0]);
            }
            if ends_with_str(
                first.as_str(),
                "is already locked by a session (or being locked or unlocked)",
            ) {
                return VmError::from(ErrorKind::InvalidPowerState(VmPowerState::Running));
            }
        }
        unknown_error(s)
    }

    /// Splits captured output into success or a classified error: an
    /// error line starts, case-insensitively, with the tool's error
    /// prefix, and the text after it is trimmed and classified.
    pub fn check(s: String) -> (r: VmResult<String>)
        ensures
            match r {
                Ok(t) => !is_ci_prefix("vboxmanage.exe: error: "@, s@) && t == s,
                Err(e) => is_ci_prefix("vboxmanage.exe: error: "@, s@) && vbox_error_spec(
                    trim_spec(
                        s@.subrange("vboxmanage.exe: error: "@.len() as int, s@.len() as int),
                    ),
                    e,
                ),
            },
    {
        if starts_with_ci(s.as_str(), "vboxmanage.exe: error: ") {
            let plen: usize = "vboxmanage.exe: error: ".unicode_len();
            let slen: usize = s.as_str().unicode_len();
            let rest = s.as_str().substring_char(plen, slen);
            let rest = trim_str(rest);
            Err(Self::handle_error(rest))
        } else {
            Ok(s)
        }
    }

    /// What one invocation of the tool produced: the tool writes errors
    /// and warnings to stderr, so nonempty stderr is inspected for the
    /// error prefix and otherwise returned as the output; empty stderr
    /// passes stdout through.
    pub fn exec_output(stdout: String, stderr: String) -> (r: VmResult<String>)
        ensures
            match r {
                Ok(t) => if stderr@.len() == 0 {
                    t == stdout
                } else {
                    !is_ci_prefix("vboxmanage.exe: error: "@, stderr@) && t == stderr
                },
                Err(e) => stderr@.len() > 0 && is_ci_prefix("vboxmanage.exe: error: "@, stderr@)
                    && vbox_error_spec(
                    trim_spec(
                        stderr@.subrange(
                            "vboxmanage.exe: error: "@.len() as int,
                            stderr@.len() as int,
                        ),
                    ),
                    e,
                ),
            },
    {
        if stderr.as_str().unicode_len() > 0 {
            Self::check(stderr)
        } else {
            Ok(stdout)
        }
    }

    /// Checks that `s` is spelled like a UUID: five groups of hexadecimal
    /// digits of lengths 8, 4, 4, 4 and 12, separated by dashes.
    pub fn is_uuid(s: &str) -> (r: bool)
        ensures
            r == is_uuid_spec(s@),
    {
        let slen: usize = s.unicode_len();
        if slen != 36 {
            return false;
        }
        let mut i: usize = 0;
        while i < 36
            invariant
                slen == s@.len(),
                slen == 36,
                0 <= i <= 36,
                forall|j: int|
                    0 <= j < i ==> if j == 8 || j == 13 || j == 18 || j == 23 {
                        s@[j] == '-'
                    } else {
                        is_hex_digit(s@[j])
                    },
            decreases 36 - i,
        {
            let c = s.get_char(i);
            let v = c as u32;
            if i == 8 || i == 13 || i == 18 || i == 23 {
                if c != '-' {
                    return false;
                }
            } else {
                if !((v >= 48 && v <= 57) || (v >= 97 && v <= 102) || (v >= 65 && v <= 70)) {
                    return false;
                }
            }
            i = i + 1;
        }
        true
    }
}

/// One parsed snapshot record at the specification level: name, id and
/// description as character sequences.
pub type SnapRec = (Seq<char>, Seq<char>, Seq<char>);

/// The descriptor parser's states: a record is read as its name key, its
/// id key, its description key, then any number of description
/// continuation lines.
#[derive(Debug, Clone, Copy, PartialEq, Eq, Structural)]
pub enum PState {
    Init,
    Name,
    Uuid,
    Desc,
    DescCont,
}

/// The value of a `Key="Value"` line: the text after the first `=` and
/// the following quote, with the line's final quote dropped. `None` when
/// the line has no `=` or is too short to hold both quotes.
pub open spec fn quoted_val(l: Seq<char>) -> Option<Seq<char>> {
    let p = first_idx_of(l, '=');
    if 0 <= p && p + 2 <= l.len() - 1 {
        Some(l.subrange(p + 2, l.len() - 1))
    } else {
        None
    }
}

/// The opening of a description value: the text after the first `=` and
/// the following quote, kept with everything up to the end of the line;
/// the closing quote is stripped only at the true record end.
pub open spec fn desc_val(l: Seq<char>) -> Option<Seq<char>> {
    let p = first_idx_of(l, '=');
    if 0 <= p && p + 2 <= l.len() {
        Some(l.subrange(p + 2, l.len() as int))
    } else {
        None
    }
}

/// The descriptor-dump state machine over the remaining lines. A record
/// boundary is a reappearing name key or the current-snapshot marker; a
/// line that a state does not expect is a hard parse error carrying that
/// line, and input that ends inside a half-read record is an error
/// carrying nothing.
pub open spec fn parse_snaps(
    lines: Seq<Seq<char>>,
    st: PState,
    nm: Seq<char>,
    id: Seq<char>,
    det: Seq<char>,
    acc: Seq<SnapRec>,
) -> Result<Seq<SnapRec>, Option<Seq<char>>>
    decreases lines.len(),
{
    if lines.len() == 0 {
        match st {
            PState::Init => Ok(acc),
            PState::Name | PState::Uuid => Err(None),
            PState::Desc | PState::DescCont => if det.len() >= 1 {
                Ok(acc.push((nm, id, det.drop_last())))
            } else {
                Err(None)
            },
        }
    } else {
        let l = lines[0];
        let rest = lines.skip(1);
        if is_prefix_of("SnapshotName"@, l) {
            match st {
                PState::Init => match quoted_val(l) {
                    Some(v) => parse_snaps(rest, PState::Name, v, id, det, acc),
                    None => Err(Some(l)),
                },
                PState::Desc | PState::DescCont => if det.len() >= 1 {
                    match quoted_val(l) {
                        Some(v) => parse_snaps(
                            rest,
                            PState::Name,
                            v,
                            Seq::empty(),
                            Seq::empty(),
                            acc.push((nm, id, det.drop_last())),
                        ),
                        None => Err(Some(l)),
                    }
                } else {
                    Err(Some(l))
                },
                _ => Err(Some(l)),
            }
        } else if is_prefix_of("SnapshotUUID"@, l) {
            match st {
                PState::Name => match quoted_val(l) {
                    Some(v) => parse_snaps(rest, PState::Uuid, nm, v, det, acc),
                    None => Err(Some(l)),
                },
                _ => Err(Some(l)),
            }
        } else if is_prefix_of("SnapshotDescription"@, l) {
            match st {
                PState::Uuid => match desc_val(l) {
                    Some(v) => parse_snaps(rest, PState::Desc, nm, id, v, acc),
                    None => Err(Some(l)),
                },
                _ => Err(Some(l)),
            }
        } else if is_prefix_of("CurrentSnapshotName=\""@, l) {
            match st {
                PState::Desc | PState::DescCont => if det.len() >= 1 {
                    Ok(acc.push((nm, id, det.drop_last())))
                } else {
                    Err(Some(l))
                },
                _ => Err(Some(l)),
            }
        } else {
            match st {
                PState::Desc | PState::DescCont => parse_snaps(
                    rest,
                    PState::DescCont,
                    nm,
                    id,
                    det + seq!['\n'] + l,
                    acc,
                ),
                _ => Err(Some(l)),
            }
        }
    }
}

/// What the snapshot-list parser makes of a whole descriptor dump: the
/// no-snapshots notice parses to the empty list, anything else runs
/// through the state machine line by line.
pub open spec fn parse_snapshot_dump_spec(s: Seq<char>) -> Result<Seq<SnapRec>, Option<Seq<char>>> {
    if trim_spec(s) == "This machine does not have any snapshots"@ {
        Ok(Seq::empty())
    } else {
        parse_snaps(
            lines_spec(s),
            PState::Init,
            Seq::empty(),
            Seq::empty(),
            Seq::empty(),
            Seq::empty(),
        )
    }
}

/// The snapshot value `sn` carries exactly the record `t`.
pub open spec fn snapshot_matches(sn: Snapshot, t: SnapRec) -> bool {
    &&& sn.name matches Some(n) && n@ == t.0
    &&& sn.id matches Some(i) && i@ == t.1
    &&& sn.detail matches Some(d) && d@ == t.2
}

/// The snapshot list `v` carries exactly the records `ts`, in order.
pub open spec fn snapshots_match(v: Seq<Snapshot>, ts: Seq<SnapRec>) -> bool {
    v.len() == ts.len() && forall|k: int| 0 <= k < v.len() ==> snapshot_matches(v[k], ts[k])
}

/// The value of a `Key="Value"` line, executably.
fn quoted_val_exec(l: &str) -> (r: Option<String>)
    ensures
        match r {
            Some(v) => quoted_val(l@) matches Some(w) && v@ == w,
            None => quoted_val(l@) is None,
        },
{
    let llen: usize = l.unicode_len();
    proof {
        lemma_first_idx_of(l@, '=');
    }
    match find_char(l, '=') {
        Some(p) => {
            proof {
                assert(first_idx_of(l@, '=') == p as int) by {
                    lemma_first_idx_of(l@, '=');
                }
            }
            if llen >= 3 && p <= llen - 3 {
                Some(l.substring_char(p + 2, llen - 1).to_owned())
            } else {
                None
            }
        },
        None => {
            proof {
                assert(first_idx_of(l@, '=') == -1) by {
                    lemma_first_idx_of(l@, '=');
                    if first_idx_of(l@, '=') != -1 {
                        assert(l@[first_idx_of(l@, '=')] == '=');
                    }
                }
            }
            None
        },
    }
}

/// The opening of a description value, executably.
fn desc_val_exec(l: &str) -> (r: Option<String>)
    ensures
        match r {
            Some(v) => desc_val(l@) matches Some(w) && v@ == w,
            None => desc_val(l@) is None,
        },
{
    let llen: usize = l.unicode_len();
    match find_char(l, '=') {
        Some(p) => {
            proof {
                assert(first_idx_of(l@, '=') == p as int) by {
                    lemma_first_idx_of(l@, '=');
                }
            }
            if llen >= 2 && p <= llen - 2 {
                Some(l.substring_char(p + 2, llen).to_owned())
            } else {
                None
            }
        },
        None => {
            proof {
                assert(first_idx_of(l@, '=') == -1) by {
                    lemma_first_idx_of(l@, '=');
                    if first_idx_of(l@, '=') != -1 {
                        assert(l@[first_idx_of(l@, '=')] == '=');
                    }
                }
            }
            None
        },
    }
}

impl VBoxManage {
    /// Parses a snapshot descriptor dump into the snapshot list. A
    /// reappearing name key or the current-snapshot marker ends a record;
    /// a line no state expects fails with `UnexpectedResponse` carrying
    /// that line, and input ending inside a half-read record fails with
    /// `UnexpectedResponse` carrying the whole dump.
    #[verifier::rlimit(60)]
    pub fn parse_snapshot_list(s: &str) -> (r: VmResult<Vec<Snapshot>>)
        ensures
            match r {
                Ok(v) => parse_snapshot_dump_spec(s@) matches Ok(ts) && snapshots_match(v@, ts),
                Err(e) => parse_snapshot_dump_spec(s@) matches Err(ol) && (match ol {
                    Some(l) => err_is_unexpected(e, l),
                    None => err_is_unexpected(e, s@),
                }),
            },
    {
        if crate::text::str_eq(trim_str(s), "This machine does not have any snapshots") {
            return Ok(Vec::new());
        }
        let lines = split_lines(s);
        let ghost target = parse_snaps(
            lines_spec(s@),
            PState::Init,
            Seq::empty(),
            Seq::empty(),
            Seq::empty(),
            Seq::empty(),
        );
        let n: usize = lines.len();
        proof {
            assert(lines.deep_view().len() == lines@.len());
            assert(lines_spec(s@).skip(0) =~= lines_spec(s@));
        }
        let mut st = PState::Init;
        let mut nm = String::new();
        let mut id = String::new();
        let mut det = String::new();
        let mut acc: Vec<Snapshot> = Vec::new();
        let ghost mut acc_spec: Seq<SnapRec> = Seq::empty();
        let mut i: usize = 0;
        while i < n
            invariant
                n == lines@.len(),
                lines.deep_view() == lines_spec(s@),
                0 <= i <= n,
                snapshots_match(acc@, acc_spec),
                parse_snapshot_dump_spec(s@) == target,
                parse_snaps(lines_spec(s@).skip(i as int), st, nm@, id@, det@, acc_spec)
                    == target,
            decreases n - i,
        {
            let l: &String = &lines[i];
            proof {
                assert(l@ == lines.deep_view()[i as int]);
                assert(lines_spec(s@).skip(i as int)[0] == lines_spec(s@)[i as int]);
                assert(lines_spec(s@).skip(i as int).skip(1) =~= lines_spec(s@).skip(i + 1));
            }
            if starts_with_str(l.as_str(), "SnapshotName") {
                match st {
                    PState::Init => {
                        match quoted_val_exec(l.as_str()) {
                            Some(v) => {
                                nm = v;
                                st = PState::Name;
                                proof {
                                    assert(parse_snaps(
                                        lines_spec(s@).skip(i + 1),
                                        PState::Name,
                                        nm@,
                                        id@,
                                        det@,
                                        acc_spec,
                                    ) == target);
                                }
                            },
                            None => {
                                return Err(VmError::from(
                                    ErrorKind::UnexpectedResponse(l.clone()),
                                ));
                            },
                        }
                    },
                    PState::Desc | PState::DescCont => {
                        let detlen: usize = det.as_str().unicode_len();
                        if detlen < 1 {
                            return Err(VmError::from(ErrorKind::UnexpectedResponse(l.clone())));
                        }
                        match quoted_val_exec(l.as_str()) {
                            Some(v) => {
                                let finished = Snapshot {
                                    id: Some(id.clone()),
                                    name: Some(nm.clone()),
                                    detail: Some(
                                        det.as_str().substring_char(0, detlen - 1).to_owned(),
                                    ),
                                };
                                proof {
                                    assert(det@.subrange(0, det@.len() - 1) =~= det@.drop_last());
                                }
                                acc.push(finished);
                                proof {
                                    acc_spec = acc_spec.push((nm@, id@, det@.drop_last()));
                                }
                                nm = v;
                                id = String::new();
                                det = String::new();
                                st = PState::Name;
                                proof {
                                    assert(parse_snaps(
                                        lines_spec(s@).skip(i + 1),
                                        PState::Name,
                                        nm@,
                                        id@,
                                        det@,
                                        acc_spec,
                                    ) == target);
                                }
                            },
                            None => {
                                return Err(VmError::from(
                                    ErrorKind::UnexpectedResponse(l.clone()),
                                ));
                            },
                        }
                    },
                    _ => {
                        return Err(VmError::from(ErrorKind::UnexpectedResponse(l.clone())));
                    },
                }
            } else if starts_with_str(l.as_str(), "SnapshotUUID") {
                match st {
                    PState::Name => {
                        match quoted_val_exec(l.as_str()) {
                            Some(v) => {
                                id = v;
                                st = PState::Uuid;
                                proof {
                                    assert(parse_snaps(
                                        lines_spec(s@).skip(i + 1),
                                        PState::Uuid,
                                        nm@,
                                        id@,
                                        det@,
                                        acc_spec,
                                    ) == target);
                                }
                            },
                            None => {
                                return Err(VmError::from(
                                    ErrorKind::UnexpectedResponse(l.clone()),
                                ));
                            },
                        }
                    },
                    _ => {
                        return Err(VmError::from(ErrorKind::UnexpectedResponse(l.clone())));
                    },
                }
            } else if starts_with_str(l.as_str(), "SnapshotDescription") {
                match st {
                    PState::Uuid => {
                        match desc_val_exec(l.as_str()) {
                            Some(v) => {
                                det = v;
                                st = PState::Desc;
                                proof {
                                    assert(parse_snaps(
                                        lines_spec(s@).skip(i + 1),
                                        PState::Desc,
                                        nm@,
                                        id@,
                                        det@,
                                        acc_spec,
                                    ) == target);
                                }
                            },
                            None => {
                                return Err(VmError::from(
                                    ErrorKind::UnexpectedResponse(l.clone()),
                                ));
                            },
                        }
                    },
                    _ => {
                        return Err(VmError::from(ErrorKind::UnexpectedResponse(l.clone())));
                    },
                }
            } else if starts_with_str(l.as_str(), "CurrentSnapshotName=\"") {
                match st {
                    PState::Desc | PState::DescCont => {
                        let detlen: usize = det.as_str().unicode_len();
                        if detlen < 1 {
                            return Err(VmError::from(ErrorKind::UnexpectedResponse(l.clone())));
                        }
                        let finished = Snapshot {
                            id: Some(id.clone()),
                            name: Some(nm.clone()),
                            detail: Some(det.as_str().substring_char(0, detlen - 1).to_owned()),
                        };
                        proof {
                            assert(det@.subrange(0, det@.len() - 1) =~= det@.drop_last());
                        }
                        acc.push(finished);
                        proof {
                            acc_spec = acc_spec.push((nm@, id@, det@.drop_last()));
                        }
                        return Ok(acc);
                    },
                    _ => {
                        return Err(VmError::from(ErrorKind::UnexpectedResponse(l.clone())));
                    },
                }
            } else {
                match st {
                    PState::Desc | PState::DescCont => {
                        let ghost det0 = det@;
                        proof {
                            reveal_strlit("\n");
                        }
                        det.append("\n");
                        det.append(l.as_str());
                        st = PState::DescCont;
                        proof {
                            assert(det@ =~= det0 + seq!['\n'] + l@);
                            assert(parse_snaps(
                                lines_spec(s@).skip(i + 1),
                                PState::DescCont,
                                nm@,
                                id@,
                                det@,
                                acc_spec,
                            ) == target);
                        }
                    },
                    _ => {
                        return Err(VmError::from(ErrorKind::UnexpectedResponse(l.clone())));
                    },
                }
            }
            i = i + 1;
        }
        proof {
            assert(lines_spec(s@).skip(n as int).len() == 0);
        }
        match st {
            PState::Init => Ok(acc),
            PState::Name | PState::Uuid => Err(VmError::from(
                ErrorKind::UnexpectedResponse(s.to_owned()),
            )),
            PState::Desc | PState::DescCont => {
                let detlen: usize = det.as_str().unicode_len();
                if detlen < 1 {
                    return Err(VmError::from(ErrorKind::UnexpectedResponse(s.to_owned())));
                }
                let finished = Snapshot {
                    id: Some(id.clone()),
                    name: Some(nm.clone()),
                    detail: Some(det.as_str().substring_char(0, detlen - 1).to_owned()),
                };
                proof {
                    assert(det@.subrange(0, det@.len() - 1) =~= det@.drop_last());
                }
                acc.push(finished);
                proof {
                    acc_spec = acc_spec.push((nm@, id@, det@.drop_last()));
                }
                Ok(acc)
            },
        }
    }
}

/// An ASCII hexadecimal digit, either case.
pub open spec fn is_hex_digit(c: char) -> bool {
    (48 <= c as int <= 57) || (97 <= c as int <= 102) || (65 <= c as int <= 70)
}

/// `s` is spelled like a UUID: dashes at the four fixed positions and
/// hexadecimal digits everywhere else.
pub open spec fn is_uuid_spec(s: Seq<char>) -> bool {
    s.len() == 36 && forall|j: int|
        0 <= j < 36 ==> if j == 8 || j == 13 || j == 18 || j == 23 {
            s[j] == '-'
        } else {
            is_hex_digit(s[j])
        }
}

/// All three fields of every snapshot in `v` are present.
pub open spec fn all_fields_some(v: Seq<Snapshot>) -> bool {
    forall|k: int|
        0 <= k < v.len() ==> v[k].name is Some && v[k].id is Some && v[k].detail is Some
}

/// The records carried by a snapshot list whose fields are all present.
pub open spec fn recs_of(v: Seq<Snapshot>) -> Seq<SnapRec> {
    Seq::new(v.len(), |k: int| (v[k].name->0@, v[k].id->0@, v[k].detail->0@))
}

/// One record in the descriptor format: its three key lines, each value
/// quoted, each line ended by a line feed.
pub open spec fn ser_rec(t: SnapRec) -> Seq<char> {
    "SnapshotName=\""@ + t.0 + "\"\n"@ + "SnapshotUUID=\""@ + t.1 + "\"\n"@
        + "SnapshotDescription=\""@ + t.2 + "\"\n"@
}

/// A whole snapshot list in the descriptor format.
pub open spec fn ser_all(ts: Seq<SnapRec>) -> Seq<char>
    decreases ts.len(),
{
    if ts.len() == 0 {
        Seq::empty()
    } else {
        ser_rec(ts[0]) + ser_all(ts.skip(1))
    }
}

proof fn lemma_ser_all_snoc(ts: Seq<SnapRec>, t: SnapRec)
    ensures
        ser_all(ts.push(t)) == ser_all(ts) + ser_rec(t),
    decreases ts.len(),
{
    if ts.len() == 0 {
        assert(ts.push(t)[0] == t);
        assert(ts.push(t).skip(1) =~~= Seq::<SnapRec>::empty());
        assert(ser_all(Seq::<SnapRec>::empty()) =~= Seq::<char>::empty());
        assert(ser_all(ts.push(t)) == ser_rec(t) + ser_all(Seq::<SnapRec>::empty()));
        assert(ser_all(ts.push(t)) =~= ser_rec(t));
        assert(ser_all(ts) + ser_rec(t) =~= ser_rec(t));
    } else {
        assert(ts.push(t)[0] == ts[0]);
        assert(ts.push(t).skip(1) =~~= ts.skip(1).push(t));
        lemma_ser_all_snoc(ts.skip(1), t);
        assert(ser_all(ts.push(t)) =~= ser_all(ts) + ser_rec(t));
    }
}

impl VBoxManage {
    /// Writes a snapshot list back into the machine-readable descriptor
    /// format, one name, id and description line per record. A record
    /// with a missing field cannot be written and is rejected.
    pub fn serialize_snapshot_list(snapshots: &Vec<Snapshot>) -> (r: VmResult<String>)
        ensures
            match r {
                Ok(t) => all_fields_some(snapshots@) && t@ == ser_all(recs_of(snapshots@)),
                Err(e) => !all_fields_some(snapshots@) && err_is_invalid_parameter(
                    e,
                    "snapshot record is missing a field"@,
                ),
            },
    {
        let n: usize = snapshots.len();
        let mut out = String::new();
        let mut i: usize = 0;
        proof {
            assert(recs_of(snapshots@.take(0)) =~~= Seq::<SnapRec>::empty());
        }
        while i < n
            invariant
                n == snapshots@.len(),
                0 <= i <= n,
                all_fields_some(snapshots@.take(i as int)),
                out@ == ser_all(recs_of(snapshots@.take(i as int))),
            decreases n - i,
        {
            let sn = &snapshots[i];
            let nm = match &sn.name {
                Some(x) => x,
                None => {
                    return Err(VmError::from(ErrorKind::InvalidParameter(
                        String::from_str("snapshot record is missing a field"),
                    )));
                },
            };
            let id = match &sn.id {
                Some(x) => x,
                None => {
                    return Err(VmError::from(ErrorKind::InvalidParameter(
                        String::from_str("snapshot record is missing a field"),
                    )));
                },
            };
            let det = match &sn.detail {
                Some(x) => x,
                None => {
                    return Err(VmError::from(ErrorKind::InvalidParameter(
                        String::from_str("snapshot record is missing a field"),
                    )));
                },
            };
            out.append("SnapshotName=\"");
            out.append(nm.as_str());
            out.append("\"\n");
            out.append("SnapshotUUID=\"");
            out.append(id.as_str());
            out.append("\"\n");
            out.append("SnapshotDescription=\"");
            out.append(det.as_str());
            out.append("\"\n");
            proof {
                let tsi = recs_of(snapshots@.take(i as int));
                let t = (nm@, id@, det@);
                lemma_ser_all_snoc(tsi, t);
                assert(recs_of(snapshots@.take(i + 1)) =~~= tsi.push(t));
                assert(out@ =~= ser_all(tsi) + ser_rec(t));
            }
            i = i + 1;
        }
        proof {
            assert(snapshots@.take(n as int) =~= snapshots@);
        }
        Ok(out)
    }
}

/// `x` holds neither line feed nor carriage return.
pub open spec fn no_break_chars(x: Seq<char>) -> bool {
    forall|j: int| 0 <= j < x.len() ==> x[j] != '\n' && x[j] != '\r'
}

/// The text starting at `i` cannot be mistaken for a key line or the
/// current-snapshot marker.
pub open spec fn cont_ok_at(x: Seq<char>, i: int) -> bool {
    !is_prefix_of("Snapshot"@, x.skip(i)) && !is_prefix_of("Current"@, x.skip(i))
}

/// A description round-trips when no carriage return hides in it and no
/// line of it after the first opens like a key line or the marker.
pub open spec fn wf_detail(d: Seq<char>) -> bool {
    (forall|j: int| 0 <= j < d.len() ==> d[j] != '\r') && (forall|i: int|
        1 <= i <= d.len() && d[i - 1] == '\n' ==> cont_ok_at(d, i))
}

/// A record round-trips when its name and id hold no line break and its
/// description is well formed.
pub open spec fn wf_rec(t: SnapRec) -> bool {
    no_break_chars(t.0) && no_break_chars(t.1) && wf_detail(t.2)
}

/// The serialized name line of a record, without its line feed.
pub open spec fn name_line(t: SnapRec) -> Seq<char> {
    "SnapshotName=\""@ + t.0 + "\""@
}

/// The serialized id line of a record, without its line feed.
pub open spec fn uuid_line(t: SnapRec) -> Seq<char> {
    "SnapshotUUID=\""@ + t.1 + "\""@
}

/// The serialized description of a record: its key, the quoted value,
/// line feeds inside the value left as they are.
pub open spec fn desc_part(d: Seq<char>) -> Seq<char> {
    "SnapshotDescription=\""@ + d + "\""@
}

/// The serialized lines of one record.
pub open spec fn rec_lines(t: SnapRec) -> Seq<Seq<char>> {
    seq![name_line(t), uuid_line(t)] + lines_spec(desc_part(t.2))
}

/// The serialized lines of a whole snapshot list.
pub open spec fn ser_lines(ts: Seq<SnapRec>) -> Seq<Seq<char>>
    decreases ts.len(),
{
    if ts.len() == 0 {
        Seq::empty()
    } else {
        rec_lines(ts[0]) + ser_lines(ts.skip(1))
    }
}

proof fn lemma_name_line(t: SnapRec)
    requires
        no_break_chars(t.0),
    ensures
        is_prefix_of("SnapshotName"@, name_line(t)),
        quoted_val(name_line(t)) == Some(t.0),
        no_break_chars(name_line(t)),
{
    reveal_strlit("SnapshotName");
    reveal_strlit("SnapshotName=\"");
    reveal_strlit("\"");
    let l = name_line(t);
    assert(l.subrange(0, 12) =~= "SnapshotName"@);
    lemma_first_idx_is(l, '=', 12);
    assert(l.subrange(14, l.len() - 1) =~= t.0);
    assert forall|j: int| 0 <= j < l.len() implies l[j] != '\n' && l[j] != '\r' by {
        if j < 14 {
        } else if j < 14 + t.0.len() {
            assert(l[j] == t.0[j - 14]);
        } else {
            assert(l[j] == '\"');
        }
    }
}

proof fn lemma_uuid_line(t: SnapRec)
    requires
        no_break_chars(t.1),
    ensures
        !is_prefix_of("SnapshotName"@, uuid_line(t)),
        is_prefix_of("SnapshotUUID"@, uuid_line(t)),
        quoted_val(uuid_line(t)) == Some(t.1),
        no_break_chars(uuid_line(t)),
{
    reveal_strlit("SnapshotName");
    reveal_strlit("SnapshotUUID");
    reveal_strlit("SnapshotUUID=\"");
    reveal_strlit("\"");
    let l = uuid_line(t);
    assert(l.subrange(0, 12) =~= "SnapshotUUID"@);
    if is_prefix_of("SnapshotName"@, l) {
        assert(l.subrange(0, 12)[8] == l[8]);
        assert(false);
    }
    lemma_first_idx_is(l, '=', 12);
    assert(l.subrange(14, l.len() - 1) =~= t.1);
    assert forall|j: int| 0 <= j < l.len() implies l[j] != '\n' && l[j] != '\r' by {
        if j < 14 {
        } else if j < 14 + t.1.len() {
            assert(l[j] == t.1[j - 14]);
        } else {
            assert(l[j] == '\"');
        }
    }
}

/// A line that opens with neither the snapshot key root nor the marker
/// root is a continuation line to the parser.
proof fn lemma_cont_class(l: Seq<char>)
    requires
        !is_prefix_of("Snapshot"@, l),
        !is_prefix_of("Current"@, l),
    ensures
        !is_prefix_of("SnapshotName"@, l),
        !is_prefix_of("SnapshotUUID"@, l),
        !is_prefix_of("SnapshotDescription"@, l),
        !is_prefix_of("CurrentSnapshotName=\""@, l),
{
    reveal_strlit("Snapshot");
    reveal_strlit("Current");
    reveal_strlit("SnapshotName");
    reveal_strlit("SnapshotUUID");
    reveal_strlit("SnapshotDescription");
    reveal_strlit("CurrentSnapshotName=\"");
    assert(is_prefix_of("Snapshot"@, "SnapshotName"@)) by {
        assert("SnapshotName"@.subrange(0, 8) =~= "Snapshot"@);
    }
    assert(is_prefix_of("Snapshot"@, "SnapshotUUID"@)) by {
        assert("SnapshotUUID"@.subrange(0, 8) =~= "Snapshot"@);
    }
    assert(is_prefix_of("Snapshot"@, "SnapshotDescription"@)) by {
        assert("SnapshotDescription"@.subrange(0, 8) =~= "Snapshot"@);
    }
    assert(is_prefix_of("Current"@, "CurrentSnapshotName=\""@)) by {
        assert("CurrentSnapshotName=\""@.subrange(0, 7) =~= "Current"@);
    }
    if is_prefix_of("SnapshotName"@, l) {
        lemma_prefix_trans("Snapshot"@, "SnapshotName"@, l);
    }
    if is_prefix_of("SnapshotUUID"@, l) {
        lemma_prefix_trans("Snapshot"@, "SnapshotUUID"@, l);
    }
    if is_prefix_of("SnapshotDescription"@, l) {
        lemma_prefix_trans("Snapshot"@, "SnapshotDescription"@, l);
    }
    if is_prefix_of("CurrentSnapshotName=\""@, l) {
        lemma_prefix_trans("Current"@, "CurrentSnapshotName=\""@, l);
    }
}

/// A pattern without a double quote that is no prefix of `x` is no prefix
/// of `x` with a closing quote behind it either.
proof fn lemma_prefix_quote_ext(p: Seq<char>, x: Seq<char>)
    requires
        !is_prefix_of(p, x),
        forall|j: int| 0 <= j < p.len() ==> p[j] != '\"',
    ensures
        !is_prefix_of(p, x + seq!['\"']),
{
    let xq = x + seq!['\"'];
    if is_prefix_of(p, xq) {
        if p.len() <= x.len() {
            assert(xq.subrange(0, p.len() as int) =~= x.subrange(0, p.len() as int));
            assert(false);
        } else {
            assert(p.len() == x.len() + 1);
            assert(p[p.len() - 1] == xq.subrange(0, p.len() as int)[p.len() - 1]);
            assert(p[p.len() - 1] == '\"');
            assert(false);
        }
    }
}

/// A continuation-safe text stays continuation-safe with the closing
/// quote behind it.
proof fn lemma_cont_quote(x: Seq<char>)
    requires
        cont_ok_at(x, 0),
    ensures
        !is_prefix_of("Snapshot"@, x + seq!['\"']),
        !is_prefix_of("Current"@, x + seq!['\"']),
{
    reveal_strlit("Snapshot");
    reveal_strlit("Current");
    assert(x.skip(0) =~= x);
    lemma_prefix_quote_ext("Snapshot"@, x);
    lemma_prefix_quote_ext("Current"@, x);
}

/// How the serialized description text splits into lines: a description
/// without line feeds is one line; otherwise the first line runs to the
/// first line feed and the rest splits on its own.
proof fn lemma_desc_lines(d: Seq<char>)
    requires
        forall|j: int| 0 <= j < d.len() ==> d[j] != '\r',
    ensures
        first_idx_of(d, '\n') == -1 ==> lines_spec(desc_part(d)) =~~= seq![desc_part(d)],
        first_idx_of(d, '\n') != -1 ==> {
            let k = first_idx_of(d, '\n');
            lines_spec(desc_part(d)) =~~= seq!["SnapshotDescription=\""@ + d.take(k)]
                + lines_spec(d.skip(k + 1) + seq!['\"'])
        },
{
    reveal_strlit("SnapshotDescription=\"");
    reveal_strlit("\"");
    let lit = "SnapshotDescription=\""@;
    lemma_first_idx_of(d, '\n');
    let k = first_idx_of(d, '\n');
    if k == -1 {
        let w = desc_part(d);
        assert forall|j: int| 0 <= j < w.len() implies w[j] != '\n' by {
            if j < 21 {
            } else if j < 21 + d.len() {
                assert(w[j] == d[j - 21]);
            } else {
                assert(w[j] == '\"');
            }
        }
        lemma_lines_from_append(w, Seq::empty(), Seq::empty());
        assert(w + Seq::<char>::empty() =~= w);
        assert(Seq::<char>::empty() + w =~= w);
        assert(w.len() > 0);
        assert(lines_from(Seq::<char>::empty(), w) =~~= seq![w]);
    } else {
        let a = lit + d.take(k);
        let b = d.skip(k + 1) + seq!['\"'];
        assert(desc_part(d) =~= a + seq!['\n'] + b);
        assert forall|j: int| 0 <= j < a.len() implies a[j] != '\n' by {
            if j < 21 {
            } else {
                assert(a[j] == d.take(k)[j - 21]);
                assert(a[j] == d[j - 21]);
            }
        }
        lemma_lines_from_append(a, seq!['\n'] + b, Seq::empty());
        assert(a + (seq!['\n'] + b) =~= desc_part(d));
        assert(Seq::<char>::empty() + a =~= a);
        assert((seq!['\n'] + b)[0] == '\n');
        assert((seq!['\n'] + b).skip(1) =~= b);
        assert(a.len() > 0);
        assert(a[a.len() - 1] != '\r') by {
            if k > 0 {
                assert(a[a.len() - 1] == d[k - 1]);
            } else {
                assert(a[a.len() - 1] == lit[20]);
            }
        }
        assert(crate::text::strip_cr(a) =~= a);
        assert(lines_spec(desc_part(d)) =~~= seq![a] + lines_from(b, Seq::empty()));
    }
}

/// How a description tail with the closing quote behind it splits into
/// lines.
proof fn lemma_tail_lines(x: Seq<char>)
    requires
        forall|j: int| 0 <= j < x.len() ==> x[j] != '\r',
    ensures
        first_idx_of(x, '\n') == -1 ==> lines_spec(x + seq!['\"']) =~~= seq![
            x + seq!['\"'],
        ],
        first_idx_of(x, '\n') != -1 ==> {
            let k = first_idx_of(x, '\n');
            lines_spec(x + seq!['\"']) =~~= seq![x.take(k)] + lines_spec(
                x.skip(k + 1) + seq!['\"'],
            )
        },
{
    lemma_first_idx_of(x, '\n');
    let k = first_idx_of(x, '\n');
    let xq = x + seq!['\"'];
    if k == -1 {
        assert forall|j: int| 0 <= j < xq.len() implies xq[j] != '\n' by {
            if j < x.len() {
                assert(xq[j] == x[j]);
            } else {
                assert(xq[j] == '\"');
            }
        }
        lemma_lines_from_append(xq, Seq::empty(), Seq::empty());
        assert(xq + Seq::<char>::empty() =~= xq);
        assert(Seq::<char>::empty() + xq =~= xq);
        assert(xq.len() > 0);
        assert(lines_from(Seq::<char>::empty(), xq) =~~= seq![xq]);
    } else {
        let a = x.take(k);
        let b = x.skip(k + 1) + seq!['\"'];
        assert(xq =~= a + seq!['\n'] + b);
        assert forall|j: int| 0 <= j < a.len() implies a[j] != '\n' by {
            assert(a[j] == x[j]);
        }
        lemma_lines_from_append(a, seq!['\n'] + b, Seq::empty());
        assert(a + (seq!['\n'] + b) =~= xq);
        assert(Seq::<char>::empty() + a =~= a);
        assert((seq!['\n'] + b)[0] == '\n');
        assert((seq!['\n'] + b).skip(1) =~= b);
        assert(crate::text::strip_cr(a) =~= a) by {
            if a.len() > 0 {
                assert(a[a.len() - 1] == x[k - 1]);
            }
        }
        assert(lines_spec(xq) =~~= seq![a] + lines_from(b, Seq::empty()));
    }
}

/// Every record in `ts` is well formed.
pub open spec fn all_wf(ts: Seq<SnapRec>) -> bool {
    forall|k: int| 0 <= k < ts.len() ==> wf_rec(ts[k])
}

proof fn lemma_parse_mid(
    ts: Seq<SnapRec>,
    st: PState,
    nm: Seq<char>,
    id: Seq<char>,
    det: Seq<char>,
    acc: Seq<SnapRec>,
)
    requires
        det.len() >= 1,
        st == PState::Desc || st == PState::DescCont,
        all_wf(ts),
    ensures
        parse_snaps(ser_lines(ts), st, nm, id, det, acc) == Ok::<
            Seq<SnapRec>,
            Option<Seq<char>>,
        >(acc.push((nm, id, det.drop_last())) + ts),
    decreases ts.len(), 0int,
{
    if ts.len() == 0 {
        assert(ser_lines(ts).len() == 0);
        assert(acc.push((nm, id, det.drop_last())) + ts =~~= acc.push((nm, id, det.drop_last())));
    } else {
        let t = ts[0];
        let rest = ts.skip(1);
        assert(wf_rec(t));
        let tail = seq![uuid_line(t)] + lines_spec(desc_part(t.2)) + ser_lines(rest);
        lemma_name_line(t);
        assert(ser_lines(ts) == rec_lines(t) + ser_lines(rest));
        assert(ser_lines(ts)[0] == name_line(t));
        assert(ser_lines(ts).skip(1) =~~= tail);
        assert(ser_lines(ts).len() > 0);
        let acc2 = acc.push((nm, id, det.drop_last()));
        assert(parse_snaps(ser_lines(ts), st, nm, id, det, acc) == parse_snaps(
            tail,
            PState::Name,
            t.0,
            Seq::empty(),
            Seq::empty(),
            acc2,
        ));
        lemma_parse_name(t, rest, acc2);
        assert(acc2 + seq![t] + rest =~~= acc2 + ts);
    }
}

proof fn lemma_parse_name(t: SnapRec, rest: Seq<SnapRec>, acc: Seq<SnapRec>)
    requires
        wf_rec(t),
        all_wf(rest),
    ensures
        parse_snaps(
            seq![uuid_line(t)] + lines_spec(desc_part(t.2)) + ser_lines(rest),
            PState::Name,
            t.0,
            Seq::empty(),
            Seq::empty(),
            acc,
        ) == Ok::<Seq<SnapRec>, Option<Seq<char>>>(acc + seq![t] + rest),
    decreases rest.len(), t.2.len() + 3,
{
    reveal_strlit("SnapshotName");
    reveal_strlit("SnapshotUUID");
    reveal_strlit("SnapshotDescription");
    reveal_strlit("SnapshotDescription=\"");
    reveal_strlit("\"");
    let dlines = lines_spec(desc_part(t.2));
    let lines0 = seq![uuid_line(t)] + dlines + ser_lines(rest);
    lemma_uuid_line(t);
    assert(lines0[0] == uuid_line(t));
    let lines1 = dlines + ser_lines(rest);
    assert(lines0.skip(1) =~~= lines1);
    assert(parse_snaps(lines0, PState::Name, t.0, Seq::empty(), Seq::empty(), acc)
        == parse_snaps(lines1, PState::Uuid, t.0, t.1, Seq::empty(), acc));
    lemma_desc_lines(t.2);
    lemma_first_idx_of(t.2, '\n');
    let k = first_idx_of(t.2, '\n');
    if k == -1 {
        let dp = desc_part(t.2);
        assert(lines1 =~~= seq![dp] + ser_lines(rest));
        assert(lines1[0] == dp);
        assert(lines1.skip(1) =~~= ser_lines(rest));
        assert(dp.subrange(0, 19) =~= "SnapshotDescription"@);
        assert(is_prefix_of("SnapshotDescription"@, dp));
        if is_prefix_of("SnapshotName"@, dp) {
            assert(dp.subrange(0, 12)[8] == dp[8]);
            assert(false);
        }
        if is_prefix_of("SnapshotUUID"@, dp) {
            assert(dp.subrange(0, 12)[8] == dp[8]);
            assert(false);
        }
        assert forall|j: int| 0 <= j < 19 implies dp[j] != '=' by {
            assert(dp[j] == "SnapshotDescription=\""@[j]);
        }
        lemma_first_idx_is(dp, '=', 19);
        assert(desc_val(dp) matches Some(v) && v =~= t.2 + seq!['"']) by {
            assert(dp.subrange(21, dp.len() as int) =~= t.2 + seq!['"']);
        }
        let det1 = t.2 + seq!['"'];
        assert(parse_snaps(lines1, PState::Uuid, t.0, t.1, Seq::empty(), acc) == parse_snaps(
            ser_lines(rest),
            PState::Desc,
            t.0,
            t.1,
            det1,
            acc,
        ));
        lemma_parse_mid(rest, PState::Desc, t.0, t.1, det1, acc);
        assert(det1.drop_last() =~= t.2);
        assert((t.0, t.1, det1.drop_last()) == t);
        assert(acc.push(t) + rest =~~= acc + seq![t] + rest);
    } else {
        let dp1 = "SnapshotDescription=\""@ + t.2.take(k);
        let dtail = t.2.skip(k + 1);
        assert(dlines =~~= seq![dp1] + lines_spec(dtail + seq!['"']));
        assert(lines1 =~~= seq![dp1] + (lines_spec(dtail + seq!['"']) + ser_lines(rest)));
        assert(lines1[0] == dp1);
        assert(lines1.skip(1) =~~= lines_spec(dtail + seq!['"']) + ser_lines(rest));
        assert(dp1.subrange(0, 19) =~= "SnapshotDescription"@);
        assert(is_prefix_of("SnapshotDescription"@, dp1));
        if is_prefix_of("SnapshotName"@, dp1) {
            assert(dp1.subrange(0, 12)[8] == dp1[8]);
            assert(false);
        }
        if is_prefix_of("SnapshotUUID"@, dp1) {
            assert(dp1.subrange(0, 12)[8] == dp1[8]);
            assert(false);
        }
        assert forall|j: int| 0 <= j < 19 implies dp1[j] != '=' by {
            assert(dp1[j] == "SnapshotDescription=\""@[j]);
        }
        lemma_first_idx_is(dp1, '=', 19);
        assert(desc_val(dp1) matches Some(v) && v =~= t.2.take(k)) by {
            assert(dp1.subrange(21, dp1.len() as int) =~= t.2.take(k));
        }
        assert(parse_snaps(lines1, PState::Uuid, t.0, t.1, Seq::empty(), acc) == parse_snaps(
            lines_spec(dtail + seq!['"']) + ser_lines(rest),
            PState::Desc,
            t.0,
            t.1,
            t.2.take(k),
            acc,
        ));
        assert(cont_ok_at(dtail, 0)) by {
            assert(t.2[k] == '\n');
            assert(dtail.skip(0) =~= t.2.skip(k + 1));
            assert(cont_ok_at(t.2, k + 1));
        }
        assert forall|j: int| 0 <= j < dtail.len() implies dtail[j] != '\r' by {
            assert(dtail[j] == t.2[k + 1 + j]);
        }
        assert forall|i: int|
            1 <= i <= dtail.len() && dtail[i - 1] == '\n' implies cont_ok_at(dtail, i) by {
            assert(dtail[i - 1] == t.2[k + i]);
            assert(cont_ok_at(t.2, k + 1 + i));
            assert(dtail.skip(i) =~= t.2.skip(k + 1 + i));
        }
        lemma_parse_desc(dtail, t.2.take(k), t.0, t.1, rest, acc, PState::Desc);
        assert(t.2.take(k) + seq!['\n'] + dtail =~= t.2);
        assert((t.0, t.1, t.2.take(k) + seq!['\n'] + dtail) == t);
        assert(acc.push(t) + rest =~~= acc + seq![t] + rest);
    }
}

proof fn lemma_parse_desc(
    dtail: Seq<char>,
    det: Seq<char>,
    nm: Seq<char>,
    id: Seq<char>,
    rest: Seq<SnapRec>,
    acc: Seq<SnapRec>,
    st: PState,
)
    requires
        st == PState::Desc || st == PState::DescCont,
        forall|j: int| 0 <= j < dtail.len() ==> dtail[j] != '\r',
        cont_ok_at(dtail, 0),
        forall|i: int| 1 <= i <= dtail.len() && dtail[i - 1] == '\n' ==> cont_ok_at(dtail, i),
        all_wf(rest),
    ensures
        parse_snaps(lines_spec(dtail + seq!['"']) + ser_lines(rest), st, nm, id, det, acc)
            == Ok::<Seq<SnapRec>, Option<Seq<char>>>(
            acc.push((nm, id, det + seq!['\n'] + dtail)) + rest,
        ),
    decreases rest.len(), dtail.len() + 2,
{
    lemma_tail_lines(dtail);
    lemma_first_idx_of(dtail, '\n');
    let k = first_idx_of(dtail, '\n');
    if k == -1 {
        let dq = dtail + seq!['"'];
        let lines0 = lines_spec(dq) + ser_lines(rest);
        assert(lines0 =~~= seq![dq] + ser_lines(rest));
        assert(lines0[0] == dq);
        assert(lines0.skip(1) =~~= ser_lines(rest));
        lemma_cont_quote(dtail);
        lemma_cont_class(dq);
        let det1 = det + seq!['\n'] + dq;
        assert(parse_snaps(lines0, st, nm, id, det, acc) == parse_snaps(
            ser_lines(rest),
            PState::DescCont,
            nm,
            id,
            det1,
            acc,
        ));
        lemma_parse_mid(rest, PState::DescCont, nm, id, det1, acc);
        assert(det1.drop_last() =~= det + seq!['\n'] + dtail);
        assert((nm, id, det1.drop_last()) == (nm, id, det + seq!['\n'] + dtail));
    } else {
        let seg = dtail.take(k);
        let dtail2 = dtail.skip(k + 1);
        let lines0 = lines_spec(dtail + seq!['"']) + ser_lines(rest);
        assert(lines0 =~~= seq![seg] + (lines_spec(dtail2 + seq!['"']) + ser_lines(rest)));
        assert(lines0[0] == seg);
        assert(lines0.skip(1) =~~= lines_spec(dtail2 + seq!['"']) + ser_lines(rest));
        assert(dtail.skip(0) =~= dtail);
        reveal_strlit("Snapshot");
        reveal_strlit("Current");
        if is_prefix_of("Snapshot"@, seg) {
            assert(dtail.subrange(0, 8) =~= seg.subrange(0, 8));
            assert(false);
        }
        if is_prefix_of("Current"@, seg) {
            assert(dtail.subrange(0, 7) =~= seg.subrange(0, 7));
            assert(false);
        }
        lemma_cont_class(seg);
        let det1 = det + seq!['\n'] + seg;
        assert(parse_snaps(lines0, st, nm, id, det, acc) == parse_snaps(
            lines_spec(dtail2 + seq!['"']) + ser_lines(rest),
            PState::DescCont,
            nm,
            id,
            det1,
            acc,
        ));
        assert(cont_ok_at(dtail2, 0)) by {
            assert(dtail[k] == '\n');
            assert(dtail2.skip(0) =~= dtail.skip(k + 1));
            assert(cont_ok_at(dtail, k + 1));
        }
        assert forall|j: int| 0 <= j < dtail2.len() implies dtail2[j] != '\r' by {
            assert(dtail2[j] == dtail[k + 1 + j]);
        }
        assert forall|i: int|
            1 <= i <= dtail2.len() && dtail2[i - 1] == '\n' implies cont_ok_at(dtail2, i) by {
            assert(dtail2[i - 1] == dtail[k + i]);
            assert(cont_ok_at(dtail, k + 1 + i));
            assert(dtail2.skip(i) =~= dtail.skip(k + 1 + i));
        }
        lemma_parse_desc(dtail2, det1, nm, id, rest, acc, PState::DescCont);
        assert(det1 + seq!['\n'] + dtail2 =~= det + seq!['\n'] + dtail);
    }
}

proof fn lemma_parse_ser(ts: Seq<SnapRec>, acc: Seq<SnapRec>)
    requires
        all_wf(ts),
    ensures
        parse_snaps(ser_lines(ts), PState::Init, Seq::empty(), Seq::empty(), Seq::empty(), acc)
            == Ok::<Seq<SnapRec>, Option<Seq<char>>>(acc + ts),
    decreases ts.len(), 1int,
{
    if ts.len() == 0 {
        assert(ser_lines(ts).len() == 0);
        assert(acc + ts =~~= acc);
    } else {
        let t = ts[0];
        let rest = ts.skip(1);
        assert(wf_rec(t));
        let tail = seq![uuid_line(t)] + lines_spec(desc_part(t.2)) + ser_lines(rest);
        lemma_name_line(t);
        assert(ser_lines(ts) == rec_lines(t) + ser_lines(rest));
        assert(ser_lines(ts)[0] == name_line(t));
        assert(ser_lines(ts).skip(1) =~~= tail);
        assert(ser_lines(ts).len() > 0);
        assert(parse_snaps(
            ser_lines(ts),
            PState::Init,
            Seq::empty(),
            Seq::empty(),
            Seq::empty(),
            acc,
        ) == parse_snaps(tail, PState::Name, t.0, Seq::empty(), Seq::empty(), acc));
        lemma_parse_name(t, rest, acc);
        assert(acc + seq![t] + rest =~~= acc + ts);
    }
}

proof fn lemma_lines_of_ser(ts: Seq<SnapRec>)
    requires
        all_wf(ts),
    ensures
        lines_spec(ser_all(ts)) == ser_lines(ts),
    decreases ts.len(),
{
    reveal_strlit("SnapshotName=\"");
    reveal_strlit("SnapshotUUID=\"");
    reveal_strlit("SnapshotDescription=\"");
    reveal_strlit("\"\n");
    reveal_strlit("\"");
    if ts.len() == 0 {
        assert(lines_spec(Seq::<char>::empty()) =~~= Seq::<Seq<char>>::empty());
    } else {
        let t = ts[0];
        let rest = ts.skip(1);
        assert(wf_rec(t));
        lemma_lines_of_ser(rest);
        lemma_name_line(t);
        lemma_uuid_line(t);
        let x1 = name_line(t) + seq!['\n'];
        let x2 = uuid_line(t) + seq!['\n'];
        let x3 = desc_part(t.2) + seq!['\n'];
        let r3 = ser_all(rest);
        let r2 = x3 + r3;
        let r1 = x2 + r2;
        assert(ser_all(ts) =~= x1 + r1);
        assert(x1[x1.len() - 1] == '\n');
        lemma_lines_split_at_nl(x1, r1, Seq::empty());
        crate::text::lemma_lines_one_line(name_line(t), Seq::empty());
        assert(name_line(t) + seq!['\n'] =~= x1);
        assert(Seq::<char>::empty() + name_line(t) =~= name_line(t));
        assert(crate::text::strip_cr(name_line(t)) =~= name_line(t));
        assert(lines_from(x1, Seq::empty()) =~~= seq![name_line(t)]);
        assert(x2[x2.len() - 1] == '\n');
        lemma_lines_split_at_nl(x2, r2, Seq::empty());
        crate::text::lemma_lines_one_line(uuid_line(t), Seq::empty());
        assert(uuid_line(t) + seq!['\n'] =~= x2);
        assert(Seq::<char>::empty() + uuid_line(t) =~= uuid_line(t));
        assert(crate::text::strip_cr(uuid_line(t)) =~= uuid_line(t));
        assert(lines_from(x2, Seq::empty()) =~~= seq![uuid_line(t)]);
        assert(x3[x3.len() - 1] == '\n');
        lemma_lines_split_at_nl(x3, r3, Seq::empty());
        let dp = desc_part(t.2);
        assert(dp.len() > 0);
        assert(dp[dp.len() - 1] == '"');
        lemma_lines_trailing_nl(dp, Seq::empty());
        assert(dp + seq!['\n'] =~= x3);
        assert(lines_from(x3, Seq::empty()) == lines_spec(dp));
        assert(lines_from(ser_all(ts), Seq::empty()) =~~= seq![name_line(t)] + lines_from(
            r1,
            Seq::empty(),
        ));
        assert(lines_from(r1, Seq::empty()) =~~= seq![uuid_line(t)] + lines_from(
            r2,
            Seq::empty(),
        ));
        assert(lines_from(r2, Seq::empty()) =~~= lines_spec(dp) + lines_from(r3, Seq::empty()));
        assert(lines_spec(ser_all(ts)) =~~= rec_lines(t) + ser_lines(rest));
        assert(lines_spec(ser_all(ts)) =~~= ser_lines(ts));
    }
}

/// Law: descriptor round trip. Writing any list of well-formed snapshot
/// records back into the descriptor format and parsing the result again
/// yields exactly the same list, in order and content. Well-formed means:
/// names and ids without line breaks, descriptions without carriage
/// returns and with no line after the first that opens like a key line or
/// the current-snapshot marker.
pub proof fn lemma_snapshot_round_trip(ts: Seq<SnapRec>)
    requires
        all_wf(ts),
    ensures
        parse_snapshot_dump_spec(ser_all(ts)) == Ok::<Seq<SnapRec>, Option<Seq<char>>>(ts),
{
    reveal_strlit("This machine does not have any snapshots");
    lemma_lines_of_ser(ts);
    lemma_parse_ser(ts, Seq::empty());
    if ts.len() == 0 {
        assert(ser_all(ts) =~= Seq::<char>::empty());
        assert(trim_spec(Seq::<char>::empty()).len() == 0);
        assert(trim_spec(ser_all(ts)) != "This machine does not have any snapshots"@);
        assert(Seq::<SnapRec>::empty() + ts =~~= ts);
    } else {
        reveal_strlit("SnapshotName=\"");
        let w = ser_all(ts);
        assert(w =~= ser_rec(ts[0]) + ser_all(ts.skip(1)));
        assert(w[0] == "SnapshotName=\""@[0]);
        assert(!is_wspace(w[0]));
        crate::text::lemma_trim_first_char(w);
        assert(trim_spec(w)[0] == 'S');
        assert(trim_spec(w) != "This machine does not have any snapshots"@);
        assert(Seq::<SnapRec>::empty() + ts =~~= ts);
    }
}

/// The id and name a VM-list line denotes: the text after the last space
/// is the id, the text before it without its surrounding quote characters
/// is the name. A line without a space, or whose name part cannot hold
/// both quotes, denotes nothing.
pub open spec fn vm_line_rec(l: Seq<char>) -> Option<(Seq<char>, Seq<char>)> {
    let p = last_idx_of(l, ' ');
    if p >= 2 {
        Some((l.subrange(p + 1, l.len() as int), l.subrange(1, p - 1)))
    } else {
        None
    }
}

/// The records of a whole VM listing, one per line, or the first line
/// that denotes nothing.
pub open spec fn parse_vm_lines(lines: Seq<Seq<char>>) -> Result<
    Seq<(Seq<char>, Seq<char>)>,
    Seq<char>,
>
    decreases lines.len(),
{
    if lines.len() == 0 {
        Ok(Seq::empty())
    } else {
        match vm_line_rec(lines[0]) {
            Some(t) => match parse_vm_lines(lines.skip(1)) {
                Ok(r) => Ok(seq![t] + r),
                Err(e) => Err(e),
            },
            None => Err(lines[0]),
        }
    }
}

/// The VM value `vm` carries exactly the id and name of `t`.
pub open spec fn vm_matches(vm: Vm, t: (Seq<char>, Seq<char>)) -> bool {
    &&& vm.id matches Some(i) && i@ == t.0
    &&& vm.name matches Some(n) && n@ == t.1
    &&& vm.path is None
}

/// The VM list `v` carries exactly the records `ts`, in order.
pub open spec fn vms_match(v: Seq<Vm>, ts: Seq<(Seq<char>, Seq<char>)>) -> bool {
    v.len() == ts.len() && forall|k: int| 0 <= k < v.len() ==> vm_matches(v[k], ts[k])
}

/// The selected line of VM-state information: the value of the first line
/// opening with the state key, its quotes stripped.
pub open spec fn vm_state_of(lines: Seq<Seq<char>>) -> Option<Seq<char>>
    decreases lines.len(),
{
    if lines.len() == 0 {
        None
    } else if is_prefix_of("VMState=\""@, lines[0]) && lines[0].len() >= 10 {
        Some(lines[0].subrange(9, lines[0].len() - 1))
    } else {
        vm_state_of(lines.skip(1))
    }
}

/// The key and value a `key=value` information line denotes: both sides
/// trimmed, the value's surrounding quotes stripped when both are there.
pub open spec fn kv_of_line(l: Seq<char>) -> Option<(Seq<char>, Seq<char>)> {
    let p = first_idx_of(l, '=');
    if p < 0 {
        None
    } else {
        let k = trim_spec(l.take(p));
        let v0 = trim_spec(l.subrange(p + 1, l.len() as int));
        let v = if v0.len() >= 2 && v0[0] == '"' && v0[v0.len() - 1] == '"' {
            v0.subrange(1, v0.len() - 1)
        } else {
            v0
        };
        Some((k, v))
    }
}

/// The value of the first information line carrying `key`.
pub open spec fn lookup_info_spec(lines: Seq<Seq<char>>, key: Seq<char>) -> Option<Seq<char>>
    decreases lines.len(),
{
    if lines.len() == 0 {
        None
    } else {
        match kv_of_line(lines[0]) {
            Some(kv) => if kv.0 == key {
                Some(kv.1)
            } else {
                lookup_info_spec(lines.skip(1), key)
            },
            None => lookup_info_spec(lines.skip(1), key),
        }
    }
}

/// The configuration-file path in a machine-readable information dump:
/// the value of its fifth line, which carries the config-file key.
pub open spec fn cfg_file_spec(s: Seq<char>) -> Option<Seq<char>> {
    let lines = lines_spec(s);
    if lines.len() > 4 && is_prefix_of("CfgFile=\""@, lines[4]) && lines[4].len() >= 10 {
        Some(lines[4].subrange(9, lines[4].len() - 1))
    } else {
        None
    }
}

/// How one character is spelled in a config-file path comparison: a
/// backslash is doubled, everything else stands for itself.
pub open spec fn esc_char_backslash(c: char) -> Seq<char> {
    if c == '\\' {
        seq!['\\', '\\']
    } else {
        seq![c]
    }
}

/// A path with every backslash doubled, as the information dump spells
/// its config-file value.
pub open spec fn escape_path_spec(s: Seq<char>) -> Seq<char>
    decreases s.len(),
{
    if s.len() == 0 {
        Seq::empty()
    } else {
        escape_path_spec(s.drop_last()) + esc_char_backslash(s.last())
    }
}

impl VBoxManage {
    /// Parses a VM listing, one `"name" {id}` line per VM: the line is
    /// split from the right on its last space so names may contain spaces
    /// or quotes, and the name's surrounding quote characters bound it.
    /// A malformed line fails with `UnexpectedResponse` carrying it.
    pub fn parse_vm_list(s: &str) -> (r: VmResult<Vec<Vm>>)
        ensures
            match r {
                Ok(v) => parse_vm_lines(lines_spec(s@)) matches Ok(ts) && vms_match(v@, ts),
                Err(e) => parse_vm_lines(lines_spec(s@)) matches Err(l) && err_is_unexpected(
                    e,
                    l,
                ),
            },
    {
        let lines = split_lines(s);
        let n: usize = lines.len();
        let mut acc: Vec<Vm> = Vec::new();
        let ghost mut acc_spec: Seq<(Seq<char>, Seq<char>)> = Seq::empty();
        let mut i: usize = 0;
        proof {
            assert(lines.deep_view().len() == lines@.len());
            assert(lines_spec(s@).skip(0) =~~= lines_spec(s@));
        }
        while i < n
            invariant
                n == lines@.len(),
                lines.deep_view() == lines_spec(s@),
                0 <= i <= n,
                vms_match(acc@, acc_spec),
                parse_vm_lines(lines_spec(s@)) == (match parse_vm_lines(
                    lines_spec(s@).skip(i as int),
                ) {
                    Ok(rr) => Ok::<Seq<(Seq<char>, Seq<char>)>, Seq<char>>(acc_spec + rr),
                    Err(x) => Err(x),
                }),
            decreases n - i,
        {
            let l: &String = &lines[i];
            proof {
                assert(l@ == lines.deep_view()[i as int]);
                assert(lines_spec(s@).skip(i as int)[0] == lines_spec(s@)[i as int]);
                assert(lines_spec(s@).skip(i as int).skip(1) =~~= lines_spec(s@).skip(i + 1));
            }
            let llen: usize = l.as_str().unicode_len();
            match rfind_char(l.as_str(), ' ') {
                Some(p) => {
                    proof {
                        lemma_last_idx_is(l@, ' ', p as int);
                    }
                    if p < 2 {
                        return Err(VmError::from(ErrorKind::UnexpectedResponse(l.clone())));
                    }
                    let id = l.as_str().substring_char(p + 1, llen).to_owned();
                    let name = l.as_str().substring_char(1, p - 1).to_owned();
                    let vm = Vm { id: Some(id), name: Some(name), path: None };
                    acc.push(vm);
                    proof {
                        let ghost acc0 = acc_spec;
                        let t = (l@.subrange(p + 1, l@.len() as int), l@.subrange(1, p - 1));
                        acc_spec = acc_spec.push(t);
                        let ls = lines_spec(s@).skip(i as int);
                        assert(vm_line_rec(ls[0]) == Some(t));
                        if parse_vm_lines(lines_spec(s@).skip(i + 1)) is Ok {
                            let rr = parse_vm_lines(lines_spec(s@).skip(i + 1))->Ok_0;
                            assert(acc0 + (seq![t] + rr) =~~= acc_spec + rr);
                        }
                    }
                },
                None => {
                    proof {
                        lemma_last_idx_of(l@, ' ');
                        if last_idx_of(l@, ' ') != -1 {
                            assert(l@[last_idx_of(l@, ' ')] == ' ');
                        }
                    }
                    return Err(VmError::from(ErrorKind::UnexpectedResponse(l.clone())));
                },
            }
            i = i + 1;
        }
        proof {
            assert(lines_spec(s@).skip(n as int).len() == 0);
            assert(acc_spec + Seq::<(Seq<char>, Seq<char>)>::empty() =~~= acc_spec);
        }
        Ok(acc)
    }

    /// Looks up `key` in a machine-readable information dump: the first
    /// line carrying the key, both sides trimmed, the value's quotes
    /// stripped.
    pub fn parse_info(s: &str, key: &str) -> (r: Option<String>)
        ensures
            match r {
                Some(v) => lookup_info_spec(lines_spec(s@), key@) matches Some(w) && v@ == w,
                None => lookup_info_spec(lines_spec(s@), key@) is None,
            },
    {
        let lines = split_lines(s);
        let n: usize = lines.len();
        let mut i: usize = 0;
        proof {
            assert(lines.deep_view().len() == lines@.len());
            assert(lines_spec(s@).skip(0) =~~= lines_spec(s@));
        }
        while i < n
            invariant
                n == lines@.len(),
                lines.deep_view() == lines_spec(s@),
                0 <= i <= n,
                lookup_info_spec(lines_spec(s@), key@) == lookup_info_spec(
                    lines_spec(s@).skip(i as int),
                    key@,
                ),
            decreases n - i,
        {
            let l: &String = &lines[i];
            proof {
                assert(l@ == lines.deep_view()[i as int]);
                assert(lines_spec(s@).skip(i as int)[0] == lines_spec(s@)[i as int]);
                assert(lines_spec(s@).skip(i as int).skip(1) =~~= lines_spec(s@).skip(i + 1));
            }
            let llen: usize = l.as_str().unicode_len();
            match find_char(l.as_str(), '=') {
                Some(p) => {
                    proof {
                        lemma_first_idx_is(l@, '=', p as int);
                    }
                    let k = trim_str(l.as_str().substring_char(0, p));
                    proof {
                        assert(l@.subrange(0, p as int) =~= l@.take(p as int));
                    }
                    if crate::text::str_eq(k, key) {
                        let v0 = trim_str(l.as_str().substring_char(p + 1, llen));
                        let v0len: usize = v0.unicode_len();
                        if v0len >= 2 && v0.get_char(0) == '"' && v0.get_char(v0len - 1) == '"'
                        {
                            return Some(v0.substring_char(1, v0len - 1).to_owned());
                        }
                        return Some(v0.to_owned());
                    }
                },
                None => {
                    proof {
                        lemma_first_idx_of(l@, '=');
                        if first_idx_of(l@, '=') != -1 {
                            assert(l@[first_idx_of(l@, '=')] == '=');
                        }
                    }
                },
            }
            i = i + 1;
        }
        proof {
            assert(lines_spec(s@).skip(n as int).len() == 0);
        }
        None
    }

    /// The guest OS type from an information dump, or `UnexpectedResponse`
    /// carrying the dump when the key is absent.
    pub fn get_os_version(s: &str) -> (r: VmResult<String>)
        ensures
            match r {
                Ok(v) => lookup_info_spec(lines_spec(s@), "ostype"@) matches Some(w) && v@ == w,
                Err(e) => lookup_info_spec(lines_spec(s@), "ostype"@) is None
                    && err_is_unexpected(e, s@),
            },
    {
        match Self::parse_info(s, "ostype") {
            Some(v) => Ok(v),
            None => Err(VmError::from(ErrorKind::UnexpectedResponse(s.to_owned()))),
        }
    }

    /// Whether an information dump reports the VM running: the first
    /// state line decides, and a dump without one fails with
    /// `UnexpectedResponse` carrying it.
    pub fn is_running(s: &str) -> (r: VmResult<bool>)
        ensures
            match r {
                Ok(b) => vm_state_of(lines_spec(s@)) matches Some(v) && b == (v
                    == "running"@),
                Err(e) => vm_state_of(lines_spec(s@)) is None && err_is_unexpected(e, s@),
            },
    {
        let lines = split_lines(s);
        let n: usize = lines.len();
        let mut i: usize = 0;
        proof {
            assert(lines.deep_view().len() == lines@.len());
            assert(lines_spec(s@).skip(0) =~~= lines_spec(s@));
        }
        while i < n
            invariant
                n == lines@.len(),
                lines.deep_view() == lines_spec(s@),
                0 <= i <= n,
                vm_state_of(lines_spec(s@)) == vm_state_of(lines_spec(s@).skip(i as int)),
            decreases n - i,
        {
            let l: &String = &lines[i];
            proof {
                assert(l@ == lines.deep_view()[i as int]);
                assert(lines_spec(s@).skip(i as int)[0] == lines_spec(s@)[i as int]);
                assert(lines_spec(s@).skip(i as int).skip(1) =~~= lines_spec(s@).skip(i + 1));
            }
            let llen: usize = l.as_str().unicode_len();
            if starts_with_str(l.as_str(), "VMState=\"") && llen >= 10 {
                let v = l.as_str().substring_char(9, llen - 1);
                return Ok(crate::text::str_eq(v, "running"));
            }
            i = i + 1;
        }
        proof {
            assert(lines_spec(s@).skip(n as int).len() == 0);
        }
        Err(VmError::from(ErrorKind::UnexpectedResponse(s.to_owned())))
    }

    /// The config-file path in an information dump, read from its fifth
    /// line; any other shape fails with `UnexpectedResponse` carrying the
    /// dump.
    pub fn cfg_file_of_info(s: &str) -> (r: VmResult<String>)
        ensures
            match r {
                Ok(v) => cfg_file_spec(s@) matches Some(w) && v@ == w,
                Err(e) => cfg_file_spec(s@) is None && err_is_unexpected(e, s@),
            },
    {
        let lines = split_lines(s);
        proof {
            assert(lines.deep_view().len() == lines@.len());
        }
        if lines.len() <= 4 {
            return Err(VmError::from(ErrorKind::UnexpectedResponse(s.to_owned())));
        }
        let l: &String = &lines[4];
        proof {
            assert(l@ == lines.deep_view()[4]);
        }
        let llen: usize = l.as_str().unicode_len();
        if starts_with_str(l.as_str(), "CfgFile=\"") && llen >= 10 {
            Ok(l.as_str().substring_char(9, llen - 1).to_owned())
        } else {
            Err(VmError::from(ErrorKind::UnexpectedResponse(s.to_owned())))
        }
    }

    /// A path with every backslash doubled, for comparing against the
    /// escaped config-file value in an information dump.
    pub fn escape_path(s: &str) -> (r: String)
        ensures
            r@ == escape_path_spec(s@),
    {
        proof {
            reveal_strlit("\\");
        }
        let slen: usize = s.unicode_len();
        let mut r = String::new();
        let mut i: usize = 0;
        proof {
            assert(s@.take(0) =~= Seq::<char>::empty());
            assert(r@ =~= escape_path_spec(s@.take(0)));
        }
        while i < slen
            invariant
                slen == s@.len(),
                0 <= i <= slen,
                r@ == escape_path_spec(s@.take(i as int)),
            decreases slen - i,
        {
            proof {
                reveal_strlit("\\");
                assert(s@.take(i + 1).drop_last() =~= s@.take(i as int));
                assert(s@.take(i + 1).last() == s@[i as int]);
            }
            let c = s.get_char(i);
            let piece = s.substring_char(i, i + 1);
            proof {
                assert(piece@ =~= seq![s@[i as int]]);
            }
            r.append(piece);
            if c == '\\' {
                r.append("\\");
            }
            proof {
                assert(r@ =~= escape_path_spec(s@.take(i + 1)));
            }
            i = i + 1;
        }
        proof {
            assert(s@.take(slen as int) =~= s@);
        }
        r
    }

    /// The command line that runs a program on the guest, with the
    /// configured credentials.
    pub fn run(&self, guest_args: &[&str]) -> (r: VmResult<Vec<String>>)
        ensures
            match r {
                Ok(v) => self.vm_name matches Some(n) && v.deep_view() == seq![
                    self.executable_path@,
                    "guestcontrol"@,
                    n@,
                    "run"@,
                ] + self.auth_args_spec() + crate::text::strs_view(guest_args@),
                Err(e) => self.vm_name is None && err_is(e, ErrorKind::VmIsNotSpecified),
            },
    {
        let vm = match self.get_vm() {
            Ok(v) => v,
            Err(e) => {
                return Err(e);
            },
        };
        let mut v: Vec<String> = Vec::new();
        v.push(self.executable_path.clone());
        v.push(String::from_str("guestcontrol"));
        v.push(vm.clone());
        v.push(String::from_str("run"));
        let mut auth = self.build_auth();
        v.append(&mut auth);
        crate::text::push_strs(&mut v, guest_args);
        proof {
            assert(v.deep_view() =~~= seq![self.executable_path@, "guestcontrol"@, vm@, "run"@]
                + self.auth_args_spec() + crate::text::strs_view(guest_args@));
        }
        Ok(v)
    }

    /// The command line that copies files from the guest to the host.
    pub fn copy_from(
        &self,
        follow: bool,
        recursive: bool,
        from_guest_paths: &[&str],
        to_host_path: &str,
    ) -> (r: VmResult<Vec<String>>)
        ensures
            match r {
                Ok(v) => self.vm_name matches Some(n) && v.deep_view() == seq![
                    self.executable_path@,
                    "guestcontrol"@,
                    n@,
                    "copyfrom"@,
                ] + self.auth_args_spec() + (if follow {
                    seq!["--follow"@]
                } else {
                    Seq::empty()
                }) + (if recursive {
                    seq!["-R"@]
                } else {
                    Seq::empty()
                }) + crate::text::strs_view(from_guest_paths@) + seq![to_host_path@],
                Err(e) => self.vm_name is None && err_is(e, ErrorKind::VmIsNotSpecified),
            },
    {
        let vm = match self.get_vm() {
            Ok(v) => v,
            Err(e) => {
                return Err(e);
            },
        };
        let mut v: Vec<String> = Vec::new();
        v.push(self.executable_path.clone());
        v.push(String::from_str("guestcontrol"));
        v.push(vm.clone());
        v.push(String::from_str("copyfrom"));
        let ghost s0 = v.deep_view();
        proof {
            assert(s0 =~~= seq![self.executable_path@, "guestcontrol"@, vm@, "copyfrom"@]);
        }
        let mut auth = self.build_auth();
        let ghost authv = auth.deep_view();
        v.append(&mut auth);
        proof {
            assert(v.deep_view() =~~= s0 + authv);
        }
        let ghost s1 = v.deep_view();
        if follow {
            let ghost prev = v.deep_view();
            v.push(String::from_str("--follow"));
            proof {
                assert(v.deep_view() =~~= prev.push("--follow"@));
            }
        }
        proof {
            assert(v.deep_view() =~~= s1 + (if follow {
                seq!["--follow"@]
            } else {
                Seq::<Seq<char>>::empty()
            }));
        }
        let ghost s2 = v.deep_view();
        if recursive {
            let ghost prev = v.deep_view();
            v.push(String::from_str("-R"));
            proof {
                assert(v.deep_view() =~~= prev.push("-R"@));
            }
        }
        proof {
            assert(v.deep_view() =~~= s2 + (if recursive {
                seq!["-R"@]
            } else {
                Seq::<Seq<char>>::empty()
            }));
        }
        let ghost s3 = v.deep_view();
        crate::text::push_strs(&mut v, from_guest_paths);
        let ghost s4 = v.deep_view();
        let ghost prev = v.deep_view();
        v.push(to_host_path.to_owned());
        proof {
            assert(v.deep_view() =~~= prev.push(to_host_path@));
            assert(v.deep_view() =~~= seq![
                self.executable_path@,
                "guestcontrol"@,
                vm@,
                "copyfrom"@,
            ] + self.auth_args_spec() + (if follow {
                seq!["--follow"@]
            } else {
                Seq::<Seq<char>>::empty()
            }) + (if recursive {
                seq!["-R"@]
            } else {
                Seq::<Seq<char>>::empty()
            }) + crate::text::strs_view(from_guest_paths@) + seq![to_host_path@]);
        }
        Ok(v)
    }

    /// The command line that copies files from the host to the guest.
    pub fn copy_to(
        &self,
        follow: bool,
        recursive: bool,
        from_host_paths: &[&str],
        to_guest_path: &str,
    ) -> (r: VmResult<Vec<String>>)
        ensures
            match r {
                Ok(v) => self.vm_name matches Some(n) && v.deep_view() == seq![
                    self.executable_path@,
                    "guestcontrol"@,
                    n@,
                    "copyto"@,
                ] + self.auth_args_spec() + (if follow {
                    seq!["--follow"@]
                } else {
                    Seq::empty()
                }) + (if recursive {
                    seq!["-R"@]
                } else {
                    Seq::empty()
                }) + crate::text::strs_view(from_host_paths@) + seq![to_guest_path@],
                Err(e) => self.vm_name is None && err_is(e, ErrorKind::VmIsNotSpecified),
            },
    {
        let vm = match self.get_vm() {
            Ok(v) => v,
            Err(e) => {
                return Err(e);
            },
        };
        let mut v: Vec<String> = Vec::new();
        v.push(self.executable_path.clone());
        v.push(String::from_str("guestcontrol"));
        v.push(vm.clone());
        v.push(String::from_str("copyto"));
        let ghost s0 = v.deep_view();
        proof {
            assert(s0 =~~= seq![self.executable_path@, "guestcontrol"@, vm@, "copyto"@]);
        }
        let mut auth = self.build_auth();
        let ghost authv = auth.deep_view();
        v.append(&mut auth);
        proof {
            assert(v.deep_view() =~~= s0 + authv);
        }
        let ghost s1 = v.deep_view();
        if follow {
            let ghost prev = v.deep_view();
            v.push(String::from_str("--follow"));
            proof {
                assert(v.deep_view() =~~= prev.push("--follow"@));
            }
        }
        proof {
            assert(v.deep_view() =~~= s1 + (if follow {
                seq!["--follow"@]
            } else {
                Seq::<Seq<char>>::empty()
            }));
        }
        let ghost s2 = v.deep_view();
        if recursive {
            let ghost prev = v.deep_view();
            v.push(String::from_str("-R"));
            proof {
                assert(v.deep_view() =~~= prev.push("-R"@));
            }
        }
        proof {
            assert(v.deep_view() =~~= s2 + (if recursive {
                seq!["-R"@]
            } else {
                Seq::<Seq<char>>::empty()
            }));
        }
        let ghost s3 = v.deep_view();
        crate::text::push_strs(&mut v, from_host_paths);
        let ghost s4 = v.deep_view();
        let ghost prev = v.deep_view();
        v.push(to_guest_path.to_owned());
        proof {
            assert(v.deep_view() =~~= prev.push(to_guest_path@));
            assert(v.deep_view() =~~= seq![
                self.executable_path@,
                "guestcontrol"@,
                vm@,
                "copyto"@,
            ] + self.auth_args_spec() + (if follow {
                seq!["--follow"@]
            } else {
                Seq::<Seq<char>>::empty()
            }) + (if recursive {
                seq!["-R"@]
            } else {
                Seq::<Seq<char>>::empty()
            }) + crate::text::strs_view(from_host_paths@) + seq![to_guest_path@]);
        }
        Ok(v)
    }

    /// The command line that removes files from the guest.
    pub fn remove_file(&self, guest_paths: &[&str]) -> (r: VmResult<Vec<String>>)
        ensures
            match r {
                Ok(v) => self.vm_name matches Some(n) && v.deep_view() == seq![
                    self.executable_path@,
                    "guestcontrol"@,
                    n@,
                    "rm"@,
                ] + self.auth_args_spec() + seq!["-f"@] + crate::text::strs_view(guest_paths@),
                Err(e) => self.vm_name is None && err_is(e, ErrorKind::VmIsNotSpecified),
            },
    {
        let vm = match self.get_vm() {
            Ok(v) => v,
            Err(e) => {
                return Err(e);
            },
        };
        let mut v: Vec<String> = Vec::new();
        v.push(self.executable_path.clone());
        v.push(String::from_str("guestcontrol"));
        v.push(vm.clone());
        v.push(String::from_str("rm"));
        let mut auth = self.build_auth();
        v.append(&mut auth);
        v.push(String::from_str("-f"));
        crate::text::push_strs(&mut v, guest_paths);
        proof {
            assert(v.deep_view() =~~= seq![self.executable_path@, "guestcontrol"@, vm@, "rm"@]
                + self.auth_args_spec() + seq!["-f"@] + crate::text::strs_view(guest_paths@));
        }
        Ok(v)
    }

    /// The command line that sends keyboard scancodes to the guest, each
    /// spelled in lowercase hexadecimal.
    pub fn keyboard_put_scancode(&self, codes: &[u8]) -> (r: VmResult<Vec<String>>)
        ensures
            match r {
                Ok(v) => self.vm_name matches Some(n) && v.deep_view() == seq![
                    self.executable_path@,
                    "controlvm"@,
                    n@,
                    "keyboardputscancode"@,
                ] + self.auth_args_spec() + Seq::new(
                    codes@.len(),
                    |i: int| hex_spec(codes@[i] as int),
                ),
                Err(e) => self.vm_name is None && err_is(e, ErrorKind::VmIsNotSpecified),
            },
    {
        let vm = match self.get_vm() {
            Ok(v) => v,
            Err(e) => {
                return Err(e);
            },
        };
        let mut v: Vec<String> = Vec::new();
        v.push(self.executable_path.clone());
        v.push(String::from_str("controlvm"));
        v.push(vm.clone());
        v.push(String::from_str("keyboardputscancode"));
        let mut auth = self.build_auth();
        v.append(&mut auth);
        let ghost base = v.deep_view();
        let mut i: usize = 0;
        while i < codes.len()
            invariant
                0 <= i <= codes@.len(),
                v.deep_view() == base + Seq::new(i as nat, |k: int| hex_spec(codes@[k] as int)),
            decreases codes@.len() - i,
        {
            let ghost prev = v.deep_view();
            v.push(crate::text::fmt_hex_u8(codes[i]));
            proof {
                assert(v.deep_view() =~~= prev.push(hex_spec(codes@[i as int] as int)));
                assert(v.deep_view() =~~= base + Seq::new(
                    (i + 1) as nat,
                    |k: int| hex_spec(codes@[k] as int),
                ));
            }
            i = i + 1;
        }
        proof {
            assert(v.deep_view() =~~= seq![
                self.executable_path@,
                "controlvm"@,
                vm@,
                "keyboardputscancode"@,
            ] + self.auth_args_spec() + Seq::new(codes@.len(), |i: int| hex_spec(codes@[i] as int)));
        }
        Ok(v)
    }

    /// The command line that types a sequence of strings on the guest's
    /// keyboard.
    pub fn keyboard_put_string(&self, strings: &[&str]) -> (r: VmResult<Vec<String>>)
        ensures
            match r {
                Ok(v) => self.vm_name matches Some(n) && v.deep_view() == seq![
                    self.executable_path@,
                    "controlvm"@,
                    n@,
                    "keyboardputstring"@,
                ] + self.auth_args_spec() + crate::text::strs_view(strings@),
                Err(e) => self.vm_name is None && err_is(e, ErrorKind::VmIsNotSpecified),
            },
    {
        let vm = match self.get_vm() {
            Ok(v) => v,
            Err(e) => {
                return Err(e);
            },
        };
        let mut v: Vec<String> = Vec::new();
        v.push(self.executable_path.clone());
        v.push(String::from_str("controlvm"));
        v.push(vm.clone());
        v.push(String::from_str("keyboardputstring"));
        let mut auth = self.build_auth();
        v.append(&mut auth);
        crate::text::push_strs(&mut v, strings);
        proof {
            assert(v.deep_view() =~~= seq![
                self.executable_path@,
                "controlvm"@,
                vm@,
                "keyboardputstring"@,
            ] + self.auth_args_spec() + crate::text::strs_view(strings@));
        }
        Ok(v)
    }

    /// The command line that installs an extension pack.
    pub fn install_ext_pack(&self, replace: bool, accept_license: bool, ext_pack_path: &str) -> (r:
        Vec<String>)
        ensures
            r.deep_view() == seq![self.executable_path@, "extpack"@, "install"@] + (if replace {
                seq!["--replace"@]
            } else {
                Seq::empty()
            }) + (if accept_license {
                seq!["--accept-license=sha256"@]
            } else {
                Seq::empty()
            }) + seq![ext_pack_path@],
    {
        let mut v: Vec<String> = Vec::new();
        v.push(self.executable_path.clone());
        v.push(String::from_str("extpack"));
        v.push(String::from_str("install"));
        if replace {
            v.push(String::from_str("--replace"));
        }
        if accept_license {
            v.push(String::from_str("--accept-license=sha256"));
        }
        v.push(ext_pack_path.to_owned());
        proof {
            assert(v.deep_view() =~~= seq![self.executable_path@, "extpack"@, "install"@] + (
            if replace {
                seq!["--replace"@]
            } else {
                Seq::<Seq<char>>::empty()
            }) + (if accept_license {
                seq!["--accept-license=sha256"@]
            } else {
                Seq::<Seq<char>>::empty()
            }) + seq![ext_pack_path@]);
        }
        v
    }

    /// The command line that uninstalls an extension pack.
    pub fn uninstall_ext_pack(&self, force: bool, ext_pack_path: &str) -> (r: Vec<String>)
        ensures
            r.deep_view() == seq![self.executable_path@, "extpack"@, "uninstall"@] + (if force {
                seq!["--force"@]
            } else {
                Seq::empty()
            }) + seq![ext_pack_path@],
    {
        let mut v: Vec<String> = Vec::new();
        v.push(self.executable_path.clone());
        v.push(String::from_str("extpack"));
        v.push(String::from_str("uninstall"));
        if force {
            v.push(String::from_str("--force"));
        }
        v.push(ext_pack_path.to_owned());
        proof {
            assert(v.deep_view() =~~= seq![self.executable_path@, "extpack"@, "uninstall"@] + (
            if force {
                seq!["--force"@]
            } else {
                Seq::<Seq<char>>::empty()
            }) + seq![ext_pack_path@]);
        }
        v
    }

    /// The command line that cleans up extension-pack leftovers.
    pub fn cleanup_ext_pack(&self) -> (r: Vec<String>)
        ensures
            r.deep_view() == seq![self.executable_path@, "extpack"@, "cleanup"@],
    {
        let mut v: Vec<String> = Vec::new();
        v.push(self.executable_path.clone());
        v.push(String::from_str("extpack"));
        v.push(String::from_str("cleanup"));
        proof {
            assert(v.deep_view() =~~= seq![self.executable_path@, "extpack"@, "cleanup"@]);
        }
        v
    }

    /// Classifies one soft-stop attempt for the convergence engine: an
    /// accepted signal counts as issued, a VM reported in a non-running
    /// state has converged, a VM still reported running keeps converging,
    /// and any other error is fatal.
    pub fn classify_stop_attempt(r: VmResult<()>) -> (o: AttemptOutcome)
        ensures
            match r {
                Ok(_) => o is Issued,
                Err(x) => match x.repr {
                    Repr::Simple(ErrorKind::InvalidPowerState(st)) => if st
                        == VmPowerState::Running {
                        o is Converging
                    } else {
                        o matches AttemptOutcome::Converged(e) && e == x
                    },
                    _ => o matches AttemptOutcome::Fatal(e) && e == x,
                },
            },
    {
        match r {
            Ok(_) => AttemptOutcome::Issued,
            Err(x) => match x.is_invalid_state_running() {
                Some(true) => AttemptOutcome::Converging,
                Some(false) => AttemptOutcome::Converged(x),
                None => AttemptOutcome::Fatal(x),
            },
        }
    }

    /// Classifies one hard-stop attempt: the tool reporting the VM
    /// already powered off means it is still settling, a VM reported not
    /// running has converged, anything else is fatal.
    pub fn classify_hard_stop_attempt(r: VmResult<()>) -> (o: AttemptOutcome)
        ensures
            match r {
                Ok(_) => o is Issued,
                Err(x) => match x.repr {
                    Repr::Simple(ErrorKind::InvalidPowerState(st)) => if st
                        == VmPowerState::Stopped {
                        o is Converging
                    } else if st == VmPowerState::NotRunning {
                        o matches AttemptOutcome::Converged(e) && e == x
                    } else {
                        o matches AttemptOutcome::Fatal(e) && e == x
                    },
                    _ => o matches AttemptOutcome::Fatal(e) && e == x,
                },
            },
    {
        match r {
            Ok(_) => AttemptOutcome::Issued,
            Err(x) => match x.get_invalid_state() {
                Some(VmPowerState::Stopped) => AttemptOutcome::Converging,
                Some(VmPowerState::NotRunning) => AttemptOutcome::Converged(x),
                _ => AttemptOutcome::Fatal(x),
            },
        }
    }

    /// Classifies one suspend attempt: the tool reporting the VM already
    /// suspended means it is still settling, a VM reported not running
    /// has converged, anything else is fatal.
    pub fn classify_suspend_attempt(r: VmResult<()>) -> (o: AttemptOutcome)
        ensures
            match r {
                Ok(_) => o is Issued,
                Err(x) => match x.repr {
                    Repr::Simple(ErrorKind::InvalidPowerState(st)) => if st
                        == VmPowerState::Suspended {
                        o is Converging
                    } else if st == VmPowerState::NotRunning {
                        o matches AttemptOutcome::Converged(e) && e == x
                    } else {
                        o matches AttemptOutcome::Fatal(e) && e == x
                    },
                    _ => o matches AttemptOutcome::Fatal(e) && e == x,
                },
            },
    {
        match r {
            Ok(_) => AttemptOutcome::Issued,
            Err(x) => match x.get_invalid_state() {
                Some(VmPowerState::Suspended) => AttemptOutcome::Converging,
                Some(VmPowerState::NotRunning) => AttemptOutcome::Converged(x),
                _ => AttemptOutcome::Fatal(x),
            },
        }
    }

    /// Decides one start attempt of the reboot retry loop: success is
    /// done, a VM still reported running after the stop is retried, and
    /// anything else aborts.
    pub fn classify_start_attempt(r: VmResult<()>) -> (o: Decision)
        ensures
            match r {
                Ok(_) => o is Done,
                Err(x) => match x.repr {
                    Repr::Simple(ErrorKind::InvalidPowerState(st)) => if st
                        == VmPowerState::Running {
                        o is Continue
                    } else {
                        o matches Decision::Fail(e) && e == x
                    },
                    _ => o matches Decision::Fail(e) && e == x,
                },
            },
    {
        match r {
            Ok(_) => Decision::Done,
            Err(x) => match x.is_invalid_state_running() {
                Some(true) => Decision::Continue,
                _ => Decision::Fail(x),
            },
        }
    }
}

} // verus!
