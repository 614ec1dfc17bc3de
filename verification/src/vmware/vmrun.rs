//! The second local management-tool backend: it addresses a VM only by
//! the path of its VM file, builds one command line per operation, parses
//! the tool's counted list outputs, and classifies its `Error:`-prefixed
//! diagnostics. The struct here builds the exact command line to run and
//! interprets the captured output; the host program executes the tool.
use crate::text::{
    is_prefix_of, lines_spec, split_lines, starts_with_str, strip_prefix_str, trim_spec, trim_str,
};
use crate::types::{
    err_is, err_is_invalid_state, err_is_unexpected, err_is_unknown, ErrorKind, Repr, Snapshot,
    Vm, VmError, VmPowerState, VmResult,
};
use crate::text::{find_str, find_sub_idx, push_strs, str_eq, strs_view};
use vstd::prelude::*;
use vstd::string::*;

verus! {

/// The product family the tool drives, as its `-T` argument spells it.
#[derive(Debug, Clone, Copy)]
pub enum HostType {
    Player,
    Workstation,
    Fusion,
}

impl HostType {
    /// The `-T` argument for this product family.
    pub fn as_str(&self) -> (r: &'static str)
        ensures
            r@ == (match *self {
                HostType::Player => "player"@,
                HostType::Workstation => "ws"@,
                HostType::Fusion => "fusion"@,
            }),
    {
        match self {
            HostType::Player => "player",
            HostType::Workstation => "ws",
            HostType::Fusion => "fusion",
        }
    }
}

/// A variable to write on the guest: a guest variable, a runtime
/// configuration entry, or a guest environment variable, each with its
/// value.
pub enum WriteVar<'a> {
    GuestVar(&'a str, &'a str),
    RuntimeConfig(&'a str, &'a str),
    GuestEnv(&'a str, &'a str),
}

/// A variable to read from the guest.
pub enum ReadVar<'a> {
    GuestVar(&'a str),
    RuntimeConfig(&'a str),
    GuestEnv(&'a str),
}

/// One process on the guest, as the tool lists it.
#[derive(Debug)]
pub struct ProcInfo {
    pub pid: u32,
    pub owner: String,
    pub cmd: String,
}

impl Clone for ProcInfo {
    fn clone(&self) -> (r: Self)
        ensures
            r == *self,
    {
        ProcInfo { pid: self.pid, owner: self.owner.clone(), cmd: self.cmd.clone() }
    }
}

impl PartialEq for ProcInfo {
    fn eq(&self, other: &Self) -> (r: bool) {
        self.pid == other.pid && self.owner == other.owner && self.cmd == other.cmd
    }
}

impl vstd::std_specs::cmp::PartialEqSpecImpl for ProcInfo {
    open spec fn obeys_eq_spec() -> bool {
        true
    }

    open spec fn eq_spec(&self, other: &Self) -> bool {
        self.pid == other.pid && self.owner@ == other.owner@ && self.cmd@ == other.cmd@
    }
}

/// The tool's configuration: its executable, the product family, the
/// selected VM file, passwords, and whether to start with a GUI.
#[derive(Debug, Clone)]
pub struct VmRun {
    pub host_type: String,
    pub executable_path: String,
    pub vm_path: Option<String>,
    pub vm_password: Option<String>,
    pub guest_username: Option<String>,
    pub guest_password: Option<String>,
    pub gui: bool,
}

impl Default for VmRun {
    /// The default configuration: the bare executable name, the
    /// workstation product, no VM selected, GUI on.
    fn default() -> (r: Self)
        ensures
            r.host_type@ == "ws"@,
            r.executable_path@ == "vmrun"@,
            r.vm_path is None,
            r.vm_password is None,
            r.guest_username is None,
            r.guest_password is None,
            r.gui == true,
    {
        Self::new()
    }
}

/// The error the tool's diagnostic text `s` classifies to: the tool's own
/// message vocabulary, first match wins, unmatched text kept verbatim in
/// the catch-all.
pub open spec fn vmrun_error_spec(s: Seq<char>, e: VmError) -> bool {
    if is_prefix_of("No Vm name provided"@, s) {
        err_is(e, ErrorKind::VmIsNotSpecified)
    } else if is_prefix_of("Cannot open VM: "@, s) {
        err_is(e, ErrorKind::VmNotFound)
    } else if is_prefix_of("The virtual machine is not powered on: "@, s) {
        err_is_invalid_state(e, VmPowerState::NotRunning)
    } else if is_prefix_of("A snapshot with the name already exists"@, s) {
        err_is(e, ErrorKind::SnapshotExists)
    } else if is_prefix_of("Invalid user name or password for the guest OS"@, s) {
        err_is(e, ErrorKind::AuthenticationFailed)
    } else if is_prefix_of("The VMware Tools are not running in the virtual machine: "@, s) {
        err_is(e, ErrorKind::ServiceIsNotRunning)
    } else if is_prefix_of("Unrecognized command: "@, s) {
        err_is(e, ErrorKind::UnsupportedCommand)
    } else {
        err_is_unknown(e, "Unknown error: "@ + s)
    }
}

/// Law: error translation is deterministic and total. Every diagnostic
/// text classifies, and any two errors classified from the same text are
/// the same error.
pub proof fn lemma_vmrun_classification_unique(s: Seq<char>, e1: VmError, e2: VmError)
    requires
        vmrun_error_spec(s, e1),
        vmrun_error_spec(s, e2),
    ensures
        crate::types::vm_error_eq(e1, e2),
{
}

fn unknown_error(s: &str) -> (r: VmError)
    ensures
        err_is_unknown(r, "Unknown error: "@ + s@),
{
    let mut t = String::from_str("Unknown error: ");
    t.append(s);
    VmError::from(Repr::Unknown(t))
}

impl VmRun {
    /// A fresh configuration with nothing selected.
    pub fn new() -> (r: Self)
        ensures
            r.host_type@ == "ws"@,
            r.executable_path@ == "vmrun"@,
            r.vm_path is None,
            r.vm_password is None,
            r.guest_username is None,
            r.guest_password is None,
            r.gui == true,
    {
        VmRun {
            host_type: String::from_str("ws"),
            executable_path: String::from_str("vmrun"),
            vm_path: None,
            vm_password: None,
            guest_username: None,
            guest_password: None,
            gui: true,
        }
    }

    /// Sets the path to the tool.
    pub fn executable_path(&mut self, executable_path: String)
        ensures
            *final(self) == (VmRun { executable_path, ..*old(self) }),
    {
        self.executable_path = executable_path;
    }

    /// Sets the product family the tool drives.
    pub fn host_type(&mut self, host_type: HostType)
        ensures
            final(self).host_type@ == (match host_type {
                HostType::Player => "player"@,
                HostType::Workstation => "ws"@,
                HostType::Fusion => "fusion"@,
            }),
            final(self).executable_path == old(self).executable_path,
            final(self).vm_path == old(self).vm_path,
            final(self).vm_password == old(self).vm_password,
            final(self).guest_username == old(self).guest_username,
            final(self).guest_password == old(self).guest_password,
            final(self).gui == old(self).gui,
    {
        self.host_type = host_type.as_str().to_owned();
    }

    /// Selects the VM file to be manipulated.
    pub fn vm_path(&mut self, vm_path: Option<String>)
        ensures
            *final(self) == (VmRun { vm_path, ..*old(self) }),
    {
        self.vm_path = vm_path;
    }

    /// Sets the password of an encrypted VM.
    pub fn vm_password(&mut self, vm_password: Option<String>)
        ensures
            *final(self) == (VmRun { vm_password, ..*old(self) }),
    {
        self.vm_password = vm_password;
    }

    /// Sets the guest username for guest operations.
    pub fn guest_username(&mut self, guest_username: Option<String>)
        ensures
            *final(self) == (VmRun { guest_username, ..*old(self) }),
    {
        self.guest_username = guest_username;
    }

    /// Sets the guest password for guest operations.
    pub fn guest_password(&mut self, guest_password: Option<String>)
        ensures
            *final(self) == (VmRun { guest_password, ..*old(self) }),
    {
        self.guest_password = guest_password;
    }

    /// Sets whether `start` opens a GUI.
    pub fn gui(&mut self, gui: bool)
        ensures
            *final(self) == (VmRun { gui, ..*old(self) }),
    {
        self.gui = gui;
    }

    /// The selected VM file, or the error every operation that needs one
    /// returns when none is selected.
    pub fn get_vm(&self) -> (r: VmResult<&String>)
        ensures
            match r {
                Ok(v) => self.vm_path matches Some(n) && v == n,
                Err(e) => self.vm_path is None && err_is(e, ErrorKind::VmIsNotSpecified),
            },
    {
        match &self.vm_path {
            Some(v) => Ok(v),
            None => Err(VmError::from(ErrorKind::VmIsNotSpecified)),
        }
    }

    /// The credential arguments every invocation carries: each configured
    /// credential contributes its flag and value, in a fixed order.
    pub open spec fn auth_args_spec(self) -> Seq<Seq<char>> {
        (if self.guest_username is Some {
            seq!["-gu"@, self.guest_username->0@]
        } else {
            Seq::empty()
        }) + (if self.guest_password is Some {
            seq!["-gp"@, self.guest_password->0@]
        } else {
            Seq::empty()
        }) + (if self.vm_password is Some {
            seq!["-vp"@, self.vm_password->0@]
        } else {
            Seq::empty()
        })
    }

    /// The arguments every invocation of the tool opens with.
    pub open spec fn base_args_spec(self) -> Seq<Seq<char>> {
        seq![self.executable_path@, "-T"@, self.host_type@] + self.auth_args_spec()
    }

    fn build_auth(&self) -> (r: Vec<String>)
        ensures
            r.deep_view() == self.auth_args_spec(),
    {
        let mut v: Vec<String> = Vec::new();
        if let Some(x) = &self.guest_username {
            v.push(String::from_str("-gu"));
            v.push(x.clone());
        }
        if let Some(x) = &self.guest_password {
            v.push(String::from_str("-gp"));
            v.push(x.clone());
        }
        if let Some(x) = &self.vm_password {
            v.push(String::from_str("-vp"));
            v.push(x.clone());
        }
        proof {
            assert(v.deep_view() =~~= self.auth_args_spec());
        }
        v
    }

    fn base_cmd(&self) -> (r: Vec<String>)
        ensures
            r.deep_view() == self.base_args_spec(),
    {
        let mut v: Vec<String> = Vec::new();
        v.push(self.executable_path.clone());
        v.push(String::from_str("-T"));
        v.push(self.host_type.clone());
        let mut auth = self.build_auth();
        let ghost authv = auth.deep_view();
        let ghost s0 = v.deep_view();
        v.append(&mut auth);
        proof {
            assert(v.deep_view() =~~= s0 + authv);
            assert(v.deep_view() =~~= self.base_args_spec());
        }
        v
    }

    /// The base command line with a subcommand and the selected VM file.
    fn vm_cmd(&self, sub: &str) -> (r: VmResult<Vec<String>>)
        ensures
            match r {
                Ok(v) => self.vm_path matches Some(n) && v.deep_view() == self.base_args_spec()
                    + seq![sub@, n@],
                Err(e) => self.vm_path is None && err_is(e, ErrorKind::VmIsNotSpecified),
            },
    {
        let vm = match self.get_vm() {
            Ok(v) => v,
            Err(e) => {
                return Err(e);
            },
        };
        let mut v = self.base_cmd();
        let ghost s0 = v.deep_view();
        v.push(sub.to_owned());
        v.push(vm.clone());
        proof {
            assert(v.deep_view() =~~= s0 + seq![sub@, vm@]);
        }
        Ok(v)
    }

    /// The base command line with a subcommand, the selected VM file, and
    /// further arguments.
    fn vm_cmd_with(&self, sub: &str, extra: &[&str]) -> (r: VmResult<Vec<String>>)
        ensures
            match r {
                Ok(v) => self.vm_path matches Some(n) && v.deep_view() == self.base_args_spec()
                    + seq![sub@, n@] + strs_view(extra@),
                Err(e) => self.vm_path is None && err_is(e, ErrorKind::VmIsNotSpecified),
            },
    {
        let mut v = match self.vm_cmd(sub) {
            Ok(v) => v,
            Err(e) => {
                return Err(e);
            },
        };
        push_strs(&mut v, extra);
        Ok(v)
    }

    /// Classifies one diagnostic message of the tool, first match wins;
    /// unmatched text is preserved verbatim.
    pub fn handle_error(s: &str) -> (r: VmError)
        ensures
            vmrun_error_spec(s@, r),
    {
        if starts_with_str(s, "No Vm name provided") {
            return VmError::from(ErrorKind::VmIsNotSpecified);
        }
        if starts_with_str(s, "Cannot open VM: ") {
            return VmError::from(ErrorKind::VmNotFound);
        }
        if starts_with_str(s, "The virtual machine is not powered on: ") {
            return VmError::from(ErrorKind::InvalidPowerState(VmPowerState::NotRunning));
        }
        if starts_with_str(s, "A snapshot with the name already exists") {
            return VmError::from(ErrorKind::SnapshotExists);
        }
        if starts_with_str(s, "Invalid user name or password for the guest OS") {
            return VmError::from(ErrorKind::AuthenticationFailed);
        }
        if starts_with_str(s, "The VMware Tools are not running in the virtual machine: ") {
            return VmError::from(ErrorKind::ServiceIsNotRunning);
        }
        if starts_with_str(s, "Unrecognized command: ") {
            return VmError::from(ErrorKind::UnsupportedCommand);
        }
        unknown_error(s)
    }

    /// Splits captured output into success or a classified error: an
    /// error opens with the tool's `Error: ` prefix, and the text after
    /// it is trimmed and classified.
    pub fn check(s: String) -> (r: VmResult<String>)
        ensures
            match r {
                Ok(t) => !is_prefix_of("Error: "@, s@) && t == s,
                Err(e) => is_prefix_of("Error: "@, s@) && vmrun_error_spec(
                    trim_spec(s@.subrange("Error: "@.len() as int, s@.len() as int)),
                    e,
                ),
            },
    {
        match strip_prefix_str(s.as_str(), "Error: ") {
            Some(rest) => {
                let rest = trim_str(rest);
                Err(Self::handle_error(rest))
            },
            None => Ok(s),
        }
    }

    /// What one invocation of the tool produced: nonempty stderr is
    /// checked for the error prefix first, otherwise stdout is.
    pub fn exec_output(stdout: String, stderr: String) -> (r: VmResult<String>)
        ensures
            match r {
                Ok(t) => if stderr@.len() > 0 {
                    !is_prefix_of("Error: "@, stderr@) && t == stderr
                } else {
                    !is_prefix_of("Error: "@, stdout@) && t == stdout
                },
                Err(e) => if stderr@.len() > 0 {
                    is_prefix_of("Error: "@, stderr@) && vmrun_error_spec(
                        trim_spec(stderr@.subrange("Error: "@.len() as int, stderr@.len() as int)),
                        e,
                    )
                } else {
                    is_prefix_of("Error: "@, stdout@) && vmrun_error_spec(
                        trim_spec(stdout@.subrange("Error: "@.len() as int, stdout@.len() as int)),
                        e,
                    )
                },
            },
    {
        if stderr.as_str().unicode_len() > 0 {
            Self::check(stderr)
        } else {
            Self::check(stdout)
        }
    }
}

/// The tool's counted list output: a header line carrying the count
/// behind `prefix`, then one listed item per line. The header must parse
/// as a number; empty output is an empty list.
pub open spec fn counted_list_spec(s: Seq<char>, prefix: Seq<char>) -> Result<
    Seq<Seq<char>>,
    (),
> {
    let lines = lines_spec(s);
    if lines.len() == 0 {
        Ok(Seq::empty())
    } else if is_prefix_of(prefix, lines[0]) && crate::text::all_digits(
        lines[0].skip(prefix.len() as int),
    ) && crate::text::digits_val(lines[0].skip(prefix.len() as int)) <= u64::MAX
        && lines[0].len() > prefix.len() {
        Ok(lines.skip(1))
    } else {
        Err(())
    }
}

impl VmRun {
    fn parse_counted_lines(s: &str, prefix: &str) -> (r: VmResult<Vec<String>>)
        ensures
            match r {
                Ok(v) => counted_list_spec(s@, prefix@) matches Ok(ls) && v.deep_view() == ls,
                Err(e) => counted_list_spec(s@, prefix@) is Err && err_is_unexpected(e, s@),
            },
    {
        let lines = split_lines(s);
        proof {
            assert(lines.deep_view().len() == lines@.len());
        }
        if lines.len() == 0 {
            let r: Vec<String> = Vec::new();
            proof {
                assert(r.deep_view() =~~= Seq::<Seq<char>>::empty());
            }
            return Ok(r);
        }
        let first: &String = &lines[0];
        proof {
            assert(first@ == lines.deep_view()[0]);
        }
        match strip_prefix_str(first.as_str(), prefix) {
            Some(rest) => {
                proof {
                    assert(first@.subrange(prefix@.len() as int, first@.len() as int)
                        =~= first@.skip(prefix@.len() as int));
                }
                match crate::text::parse_dec_u64(rest) {
                    Some(_) => {
                        let mut out: Vec<String> = Vec::new();
                        let n: usize = lines.len();
                        let mut i: usize = 1;
                        proof {
                            assert(out.deep_view() =~~= lines.deep_view().subrange(1, 1));
                        }
                        while i < n
                            invariant
                                n == lines@.len(),
                                1 <= i <= n,
                                out.deep_view() == lines.deep_view().subrange(1, i as int),
                            decreases n - i,
                        {
                            let ghost prev = out.deep_view();
                            out.push(lines[i].clone());
                            proof {
                                assert(out.deep_view() =~~= prev.push(
                                    lines.deep_view()[i as int],
                                ));
                                assert(out.deep_view() =~~= lines.deep_view().subrange(
                                    1,
                                    i + 1,
                                ));
                            }
                            i = i + 1;
                        }
                        proof {
                            assert(lines.deep_view().subrange(1, n as int) =~~= lines.deep_view()
                                .skip(1));
                        }
                        Ok(out)
                    },
                    None => Err(VmError::from(ErrorKind::UnexpectedResponse(s.to_owned()))),
                }
            },
            None => Err(VmError::from(ErrorKind::UnexpectedResponse(s.to_owned()))),
        }
    }

    /// The tool's version line: the third line of its output, after the
    /// version prefix. Any other shape fails with `UnexpectedResponse`
    /// carrying the output.
    pub fn parse_version(s: &str) -> (r: VmResult<String>)
        ensures
            match r {
                Ok(v) => lines_spec(s@).len() > 2 && is_prefix_of(
                    "vmrun version "@,
                    lines_spec(s@)[2],
                ) && v@ == lines_spec(s@)[2].skip("vmrun version "@.len() as int),
                Err(e) => (lines_spec(s@).len() <= 2 || !is_prefix_of(
                    "vmrun version "@,
                    lines_spec(s@)[2],
                )) && err_is_unexpected(e, s@),
            },
    {
        let lines = split_lines(s);
        proof {
            assert(lines.deep_view().len() == lines@.len());
        }
        if lines.len() <= 2 {
            return Err(VmError::from(ErrorKind::UnexpectedResponse(s.to_owned())));
        }
        let l: &String = &lines[2];
        proof {
            assert(l@ == lines.deep_view()[2]);
        }
        match strip_prefix_str(l.as_str(), "vmrun version ") {
            Some(v) => Ok(v.to_owned()),
            None => Err(VmError::from(ErrorKind::UnexpectedResponse(s.to_owned()))),
        }
    }

    /// The base command line, which alone asks the tool for its banner
    /// and version.
    pub fn version(&self) -> (r: Vec<String>)
        ensures
            r.deep_view() == self.base_args_spec(),
    {
        self.base_cmd()
    }

    /// The command line that starts the selected VM, without a GUI when
    /// `gui` is unset.
    pub fn start_vm(&self, gui: bool) -> (r: VmResult<Vec<String>>)
        ensures
            match r {
                Ok(v) => self.vm_path matches Some(n) && v.deep_view() == self.base_args_spec()
                    + seq!["start"@, n@] + (if gui {
                    Seq::empty()
                } else {
                    seq!["nogui"@]
                }),
                Err(e) => self.vm_path is None && err_is(e, ErrorKind::VmIsNotSpecified),
            },
    {
        let mut v = match self.vm_cmd("start") {
            Ok(v) => v,
            Err(e) => {
                return Err(e);
            },
        };
        let ghost s0 = v.deep_view();
        if !gui {
            v.push(String::from_str("nogui"));
        }
        proof {
            assert(v.deep_view() =~~= s0 + (if gui {
                Seq::<Seq<char>>::empty()
            } else {
                seq!["nogui"@]
            }));
        }
        Ok(v)
    }

    fn power_cmd(&self, sub: &str, hard_stop: Option<bool>) -> (r: VmResult<Vec<String>>)
        ensures
            match r {
                Ok(v) => self.vm_path matches Some(n) && v.deep_view() == self.base_args_spec()
                    + seq![sub@, n@] + (match hard_stop {
                    Some(true) => seq!["hard"@],
                    Some(false) => seq!["soft"@],
                    None => Seq::empty(),
                }),
                Err(e) => self.vm_path is None && err_is(e, ErrorKind::VmIsNotSpecified),
            },
    {
        let mut v = match self.vm_cmd(sub) {
            Ok(v) => v,
            Err(e) => {
                return Err(e);
            },
        };
        let ghost s0 = v.deep_view();
        match hard_stop {
            Some(true) => v.push(String::from_str("hard")),
            Some(false) => v.push(String::from_str("soft")),
            None => {},
        }
        proof {
            assert(v.deep_view() =~~= s0 + (match hard_stop {
                Some(true) => seq!["hard"@],
                Some(false) => seq!["soft"@],
                None => Seq::<Seq<char>>::empty(),
            }));
        }
        Ok(v)
    }

    /// The command line that stops the selected VM; `Some(true)` asks for
    /// a hard stop, `Some(false)` for a soft one, `None` for the tool's
    /// default.
    pub fn stop_vm(&self, hard_stop: Option<bool>) -> (r: VmResult<Vec<String>>)
        ensures
            match r {
                Ok(v) => self.vm_path matches Some(n) && v.deep_view() == self.base_args_spec()
                    + seq!["stop"@, n@] + (match hard_stop {
                    Some(true) => seq!["hard"@],
                    Some(false) => seq!["soft"@],
                    None => Seq::empty(),
                }),
                Err(e) => self.vm_path is None && err_is(e, ErrorKind::VmIsNotSpecified),
            },
    {
        self.power_cmd("stop", hard_stop)
    }

    /// The command line that resets the selected VM.
    pub fn reset_vm(&self, hard_stop: Option<bool>) -> (r: VmResult<Vec<String>>)
        ensures
            match r {
                Ok(v) => self.vm_path matches Some(n) && v.deep_view() == self.base_args_spec()
                    + seq!["reset"@, n@] + (match hard_stop {
                    Some(true) => seq!["hard"@],
                    Some(false) => seq!["soft"@],
                    None => Seq::empty(),
                }),
                Err(e) => self.vm_path is None && err_is(e, ErrorKind::VmIsNotSpecified),
            },
    {
        self.power_cmd("reset", hard_stop)
    }

    /// The command line that suspends the selected VM.
    pub fn suspend_vm(&self, hard_stop: Option<bool>) -> (r: VmResult<Vec<String>>)
        ensures
            match r {
                Ok(v) => self.vm_path matches Some(n) && v.deep_view() == self.base_args_spec()
                    + seq!["suspend"@, n@] + (match hard_stop {
                    Some(true) => seq!["hard"@],
                    Some(false) => seq!["soft"@],
                    None => Seq::empty(),
                }),
                Err(e) => self.vm_path is None && err_is(e, ErrorKind::VmIsNotSpecified),
            },
    {
        self.power_cmd("suspend", hard_stop)
    }

    /// The command line that pauses the selected VM.
    pub fn pause_vm(&self) -> (r: VmResult<Vec<String>>)
        ensures
            match r {
                Ok(v) => self.vm_path matches Some(n) && v.deep_view() == self.base_args_spec()
                    + seq!["pause"@, n@],
                Err(e) => self.vm_path is None && err_is(e, ErrorKind::VmIsNotSpecified),
            },
    {
        self.vm_cmd("pause")
    }

    /// The command line that unpauses the selected VM.
    pub fn unpause_vm(&self) -> (r: VmResult<Vec<String>>)
        ensures
            match r {
                Ok(v) => self.vm_path matches Some(n) && v.deep_view() == self.base_args_spec()
                    + seq!["unpause"@, n@],
                Err(e) => self.vm_path is None && err_is(e, ErrorKind::VmIsNotSpecified),
            },
    {
        self.vm_cmd("unpause")
    }

    /// The command line that lists the running VMs.
    pub fn list_running_vms(&self) -> (r: Vec<String>)
        ensures
            r.deep_view() == self.base_args_spec() + seq!["list"@],
    {
        let mut v = self.base_cmd();
        let ghost s0 = v.deep_view();
        v.push(String::from_str("list"));
        proof {
            assert(v.deep_view() =~~= s0 + seq!["list"@]);
        }
        v
    }

    /// Parses the running-VM listing: a count header, then one VM file
    /// path per line.
    pub fn parse_running_vms(s: &str) -> (r: VmResult<Vec<Vm>>)
        ensures
            match r {
                Ok(v) => counted_list_spec(s@, "Total running VMs: "@) matches Ok(ls)
                    && v@.len() == ls.len() && forall|k: int|
                    0 <= k < v@.len() ==> (#[trigger] v@[k]).id is None && v@[k].name is None && (
                    v@[k].path matches Some(p) && p@ == ls[k]),
                Err(e) => counted_list_spec(s@, "Total running VMs: "@) is Err
                    && err_is_unexpected(e, s@),
            },
    {
        let items = match Self::parse_counted_lines(s, "Total running VMs: ") {
            Ok(v) => v,
            Err(e) => {
                return Err(e);
            },
        };
        let mut out: Vec<Vm> = Vec::new();
        let n: usize = items.len();
        let mut i: usize = 0;
        while i < n
            invariant
                n == items@.len(),
                0 <= i <= n,
                out@.len() == i,
                forall|k: int|
                    0 <= k < i ==> (#[trigger] out@[k]).id is None && out@[k].name is None && (
                    out@[k].path matches Some(p) && p@ == items.deep_view()[k]),
            decreases n - i,
        {
            let vm = Vm { id: None, name: None, path: Some(items[i].clone()) };
            out.push(vm);
            i = i + 1;
        }
        Ok(out)
    }

    /// The command line that lists the snapshots of the selected VM.
    pub fn list_snapshots(&self) -> (r: VmResult<Vec<String>>)
        ensures
            match r {
                Ok(v) => self.vm_path matches Some(n) && v.deep_view() == self.base_args_spec()
                    + seq!["listSnapshots"@, n@],
                Err(e) => self.vm_path is None && err_is(e, ErrorKind::VmIsNotSpecified),
            },
    {
        self.vm_cmd("listSnapshots")
    }

    /// Parses the snapshot listing: a count header, then one snapshot
    /// name per line.
    pub fn parse_snapshots(s: &str) -> (r: VmResult<Vec<Snapshot>>)
        ensures
            match r {
                Ok(v) => counted_list_spec(s@, "Total snapshots: "@) matches Ok(ls) && v@.len()
                    == ls.len() && forall|k: int|
                    0 <= k < v@.len() ==> (#[trigger] v@[k]).id is None && v@[k].detail is None && (
                    v@[k].name matches Some(p) && p@ == ls[k]),
                Err(e) => counted_list_spec(s@, "Total snapshots: "@) is Err
                    && err_is_unexpected(e, s@),
            },
    {
        let items = match Self::parse_counted_lines(s, "Total snapshots: ") {
            Ok(v) => v,
            Err(e) => {
                return Err(e);
            },
        };
        let mut out: Vec<Snapshot> = Vec::new();
        let n: usize = items.len();
        let mut i: usize = 0;
        while i < n
            invariant
                n == items@.len(),
                0 <= i <= n,
                out@.len() == i,
                forall|k: int|
                    0 <= k < i ==> (#[trigger] out@[k]).id is None && out@[k].detail is None && (
                    out@[k].name matches Some(p) && p@ == items.deep_view()[k]),
            decreases n - i,
        {
            let sn = Snapshot { id: None, name: Some(items[i].clone()), detail: None };
            out.push(sn);
            i = i + 1;
        }
        Ok(out)
    }

    /// Whether a snapshot called `name` stands in the list.
    pub fn is_snapshot_exists(snapshots: &Vec<Snapshot>, name: &str) -> (r: bool)
        ensures
            r == exists|k: int|
                0 <= k < snapshots@.len() && ((#[trigger] snapshots@[k]).name matches Some(n)
                    && n@ == name@),
    {
        let len: usize = snapshots.len();
        let mut i: usize = 0;
        while i < len
            invariant
                len == snapshots@.len(),
                0 <= i <= len,
                forall|k: int|
                    0 <= k < i ==> !((#[trigger] snapshots@[k]).name matches Some(n) && n@
                        == name@),
            decreases len - i,
        {
            match &snapshots[i].name {
                Some(n) => {
                    if crate::text::str_eq(n.as_str(), name) {
                        return true;
                    }
                },
                None => {},
            }
            i = i + 1;
        }
        false
    }

    /// The command line that takes a snapshot called `name`.
    pub fn snapshot(&self, name: &str) -> (r: VmResult<Vec<String>>)
        ensures
            match r {
                Ok(v) => self.vm_path matches Some(n) && v.deep_view() == self.base_args_spec()
                    + seq!["snapshot"@, n@, name@],
                Err(e) => self.vm_path is None && err_is(e, ErrorKind::VmIsNotSpecified),
            },
    {
        let r = self.vm_cmd_with("snapshot", &[name]);
        proof {
            if r is Ok {
                assert(strs_view(seq![name]) =~~= seq![name@]);
                assert(r->Ok_0.deep_view() =~~= self.base_args_spec() + seq![
                    "snapshot"@,
                    self.vm_path->0@,
                    name@,
                ]);
            }
        }
        r
    }

    /// The command line that deletes the snapshot called `name`, and its
    /// children too when asked.
    pub fn delete_snapshot(&self, name: &str, delete_children: bool) -> (r: VmResult<
        Vec<String>,
    >)
        ensures
            match r {
                Ok(v) => self.vm_path matches Some(n) && v.deep_view() == self.base_args_spec()
                    + seq!["deleteSnapshot"@, n@, name@] + (if delete_children {
                    seq!["andDeleteChildren"@]
                } else {
                    Seq::empty()
                }),
                Err(e) => self.vm_path is None && err_is(e, ErrorKind::VmIsNotSpecified),
            },
    {
        let mut v = match self.vm_cmd_with("deleteSnapshot", &[name]) {
            Ok(v) => v,
            Err(e) => {
                return Err(e);
            },
        };
        proof {
            assert(strs_view(seq![name]) =~~= seq![name@]);
        }
        let ghost s0 = v.deep_view();
        if delete_children {
            v.push(String::from_str("andDeleteChildren"));
        }
        proof {
            assert(v.deep_view() =~~= s0 + (if delete_children {
                seq!["andDeleteChildren"@]
            } else {
                Seq::<Seq<char>>::empty()
            }));
            assert(v.deep_view() =~~= self.base_args_spec() + seq![
                "deleteSnapshot"@,
                self.vm_path->0@,
                name@,
            ] + (if delete_children {
                seq!["andDeleteChildren"@]
            } else {
                Seq::<Seq<char>>::empty()
            }));
        }
        Ok(v)
    }

    /// The command line that reverts the VM to the snapshot called
    /// `name`.
    pub fn revert_to_snapshot(&self, name: &str) -> (r: VmResult<Vec<String>>)
        ensures
            match r {
                Ok(v) => self.vm_path matches Some(n) && v.deep_view() == self.base_args_spec()
                    + seq!["revertToSnapshot"@, n@, name@],
                Err(e) => self.vm_path is None && err_is(e, ErrorKind::VmIsNotSpecified),
            },
    {
        let r = self.vm_cmd_with("revertToSnapshot", &[name]);
        proof {
            if r is Ok {
                assert(strs_view(seq![name]) =~~= seq![name@]);
                assert(r->Ok_0.deep_view() =~~= self.base_args_spec() + seq![
                    "revertToSnapshot"@,
                    self.vm_path->0@,
                    name@,
                ]);
            }
        }
        r
    }

    /// The command line that runs a program on the guest.
    pub fn run_program_in_guest(
        &self,
        no_wait: bool,
        active_window: bool,
        interactive: bool,
        program_args: &[&str],
    ) -> (r: VmResult<Vec<String>>)
        ensures
            match r {
                Ok(v) => self.vm_path matches Some(n) && v.deep_view() == self.base_args_spec()
                    + seq!["runProgramInGuest"@, n@] + (if no_wait {
                    seq!["-noWait"@]
                } else {
                    Seq::empty()
                }) + (if active_window {
                    seq!["-activeWindow"@]
                } else {
                    Seq::empty()
                }) + (if interactive {
                    seq!["-interactive"@]
                } else {
                    Seq::empty()
                }) + strs_view(program_args@),
                Err(e) => self.vm_path is None && err_is(e, ErrorKind::VmIsNotSpecified),
            },
    {
        let mut v = match self.vm_cmd("runProgramInGuest") {
            Ok(v) => v,
            Err(e) => {
                return Err(e);
            },
        };
        let ghost s0 = v.deep_view();
        if no_wait {
            v.push(String::from_str("-noWait"));
        }
        proof {
            assert(v.deep_view() =~~= s0 + (if no_wait {
                seq!["-noWait"@]
            } else {
                Seq::<Seq<char>>::empty()
            }));
        }
        let ghost s1 = v.deep_view();
        if active_window {
            v.push(String::from_str("-activeWindow"));
        }
        proof {
            assert(v.deep_view() =~~= s1 + (if active_window {
                seq!["-activeWindow"@]
            } else {
                Seq::<Seq<char>>::empty()
            }));
        }
        let ghost s2 = v.deep_view();
        if interactive {
            v.push(String::from_str("-interactive"));
        }
        proof {
            assert(v.deep_view() =~~= s2 + (if interactive {
                seq!["-interactive"@]
            } else {
                Seq::<Seq<char>>::empty()
            }));
        }
        push_strs(&mut v, program_args);
        proof {
            assert(v.deep_view() =~~= self.base_args_spec() + seq![
                "runProgramInGuest"@,
                self.vm_path->0@,
            ] + (if no_wait {
                seq!["-noWait"@]
            } else {
                Seq::<Seq<char>>::empty()
            }) + (if active_window {
                seq!["-activeWindow"@]
            } else {
                Seq::<Seq<char>>::empty()
            }) + (if interactive {
                seq!["-interactive"@]
            } else {
                Seq::<Seq<char>>::empty()
            }) + strs_view(program_args@));
        }
        Ok(v)
    }
}

/// The process record a listing line denotes: the line splits on its
/// first two separators into a numeric pid field, an owner field and a
/// command field, each behind its key.
pub open spec fn proc_line_spec(l: Seq<char>) -> Option<(int, Seq<char>, Seq<char>)> {
    let p1 = find_sub_idx(l, ", "@);
    if p1 < 0 {
        None
    } else {
        let v0 = l.take(p1);
        let rest = l.skip(p1 + 2);
        let p2 = find_sub_idx(rest, ", "@);
        if p2 < 0 {
            None
        } else {
            let v1 = rest.take(p2);
            let v2 = rest.skip(p2 + 2);
            if is_prefix_of("pid="@, v0) && crate::text::all_digits(v0.skip(4))
                && v0.len() > 4 && crate::text::digits_val(v0.skip(4)) <= u32::MAX
                && is_prefix_of("owner="@, v1) && is_prefix_of("cmd="@, v2) {
                Some((crate::text::digits_val(v0.skip(4)), v1.skip(6), v2.skip(4)))
            } else {
                None
            }
        }
    }
}

/// The process value `p` carries exactly what the listing line `l`
/// denotes.
pub open spec fn proc_matches(p: ProcInfo, l: Seq<char>) -> bool {
    proc_line_spec(l) matches Some(t) && p.pid == t.0 && p.owner@ == t.1 && p.cmd@ == t.2
}

impl VmRun {
    /// The command line that lists the processes on the guest.
    pub fn list_processes_in_guest(&self) -> (r: VmResult<Vec<String>>)
        ensures
            match r {
                Ok(v) => self.vm_path matches Some(n) && v.deep_view() == self.base_args_spec()
                    + seq!["listProcessesInGuest"@, n@],
                Err(e) => self.vm_path is None && err_is(e, ErrorKind::VmIsNotSpecified),
            },
    {
        self.vm_cmd("listProcessesInGuest")
    }

    fn parse_proc_line(l: &str) -> (r: Option<ProcInfo>)
        ensures
            match r {
                Some(p) => proc_line_spec(l@) matches Some(t) && p.pid == t.0 && p.owner@ == t.1
                    && p.cmd@ == t.2,
                None => proc_line_spec(l@) is None,
            },
    {
        let llen: usize = l.unicode_len();
        let p1 = match find_str(l, ", ") {
            Some(p) => p,
            None => {
                proof {
                    crate::text::lemma_find_sub_idx(l@, ", "@);
                }
                return None;
            },
        };
        proof {
            reveal_strlit(", ");
        }
        let v0 = l.substring_char(0, p1);
        let rest = l.substring_char(p1 + 2, llen);
        proof {
            assert(v0@ =~= l@.take(p1 as int));
            assert(rest@ =~= l@.skip(p1 + 2));
        }
        let restlen: usize = rest.unicode_len();
        let p2 = match find_str(rest, ", ") {
            Some(p) => p,
            None => {
                proof {
                    crate::text::lemma_find_sub_idx(rest@, ", "@);
                }
                return None;
            },
        };
        let v1 = rest.substring_char(0, p2);
        let v2 = rest.substring_char(p2 + 2, restlen);
        proof {
            assert(v1@ =~= rest@.take(p2 as int));
            assert(v2@ =~= rest@.skip(p2 + 2));
        }
        let pid_part = match strip_prefix_str(v0, "pid=") {
            Some(x) => x,
            None => {
                proof {
                    reveal_strlit("pid=");
                }
                return None;
            },
        };
        proof {
            reveal_strlit("pid=");
            assert(pid_part@ =~= v0@.skip(4));
        }
        let pid64 = match crate::text::parse_dec_u64(pid_part) {
            Some(x) => x,
            None => {
                return None;
            },
        };
        if pid64 > 0xffff_ffff {
            proof {
                reveal_strlit("pid=");
            }
            return None;
        }
        let owner_part = match strip_prefix_str(v1, "owner=") {
            Some(x) => x,
            None => {
                proof {
                    reveal_strlit("owner=");
                }
                return None;
            },
        };
        proof {
            reveal_strlit("owner=");
            assert(owner_part@ =~= v1@.skip(6));
        }
        let cmd_part = match strip_prefix_str(v2, "cmd=") {
            Some(x) => x,
            None => {
                proof {
                    reveal_strlit("cmd=");
                }
                return None;
            },
        };
        proof {
            reveal_strlit("cmd=");
            assert(cmd_part@ =~= v2@.skip(4));
        }
        proof {
            reveal_strlit("pid=");
            reveal_strlit("owner=");
            reveal_strlit("cmd=");
            reveal_strlit(", ");
            assert(proc_line_spec(l@) is Some);
        }
        Some(
            ProcInfo {
                pid: pid64 as u32,
                owner: owner_part.to_owned(),
                cmd: cmd_part.to_owned(),
            },
        )
    }

    /// Parses the guest-process listing: a count header, then one record
    /// per line; a malformed line fails with `UnexpectedResponse`
    /// carrying the whole output.
    pub fn parse_processes(s: &str) -> (r: VmResult<Vec<ProcInfo>>)
        ensures
            match r {
                Ok(v) => counted_list_spec(s@, "Total running VMs: "@) matches Ok(ls) && v@.len()
                    == ls.len() && forall|k: int|
                    0 <= k < v@.len() ==> proc_matches(#[trigger] v@[k], ls[k]),
                Err(e) => (counted_list_spec(s@, "Total running VMs: "@) is Err || exists|k: int|
                    0 <= k < counted_list_spec(s@, "Total running VMs: "@)->Ok_0.len()
                        && proc_line_spec(
                        #[trigger] counted_list_spec(s@, "Total running VMs: "@)->Ok_0[k],
                    ) is None) && err_is_unexpected(e, s@),
            },
    {
        let items = match Self::parse_counted_lines(s, "Total running VMs: ") {
            Ok(v) => v,
            Err(e) => {
                return Err(e);
            },
        };
        let mut out: Vec<ProcInfo> = Vec::new();
        let n: usize = items.len();
        let mut i: usize = 0;
        while i < n
            invariant
                n == items@.len(),
                items.deep_view() == counted_list_spec(s@, "Total running VMs: "@)->Ok_0,
                counted_list_spec(s@, "Total running VMs: "@) is Ok,
                0 <= i <= n,
                out@.len() == i,
                forall|k: int| 0 <= k < i ==> proc_matches(#[trigger] out@[k], items.deep_view()[k]),
            decreases n - i,
        {
            let l: &String = &items[i];
            proof {
                assert(l@ == items.deep_view()[i as int]);
            }
            match Self::parse_proc_line(l.as_str()) {
                Some(p) => {
                    proof {
                        assert(proc_matches(p, items.deep_view()[i as int]));
                    }
                    out.push(p);
                },
                None => {
                    return Err(VmError::from(ErrorKind::UnexpectedResponse(s.to_owned())));
                },
            }
            i = i + 1;
        }
        Ok(out)
    }

    /// The command line that kills the guest process with the given pid.
    pub fn kill_process_in_guest(&self, pid: u32) -> (r: VmResult<Vec<String>>)
        ensures
            match r {
                Ok(v) => self.vm_path matches Some(n) && v.deep_view() == self.base_args_spec()
                    + seq!["killProcessInGuest"@, n@, crate::text::dec_spec(pid as int)],
                Err(e) => self.vm_path is None && err_is(e, ErrorKind::VmIsNotSpecified),
            },
    {
        let mut v = match self.vm_cmd("killProcessInGuest") {
            Ok(v) => v,
            Err(e) => {
                return Err(e);
            },
        };
        let ghost s0 = v.deep_view();
        v.push(crate::text::fmt_u64(pid as u64));
        proof {
            assert(v.deep_view() =~~= s0 + seq![crate::text::dec_spec(pid as int)]);
        }
        Ok(v)
    }

    /// The command line that deletes a file on the guest.
    pub fn delete_file_in_guest(&self, guest_path: &str) -> (r: VmResult<Vec<String>>)
        ensures
            match r {
                Ok(v) => self.vm_path matches Some(n) && v.deep_view() == self.base_args_spec()
                    + seq!["deleteFileInGuest"@, n@, guest_path@],
                Err(e) => self.vm_path is None && err_is(e, ErrorKind::VmIsNotSpecified),
            },
    {
        let r = self.vm_cmd_with("deleteFileInGuest", &[guest_path]);
        proof {
            if r is Ok {
                assert(strs_view(seq![guest_path]) =~~= seq![guest_path@]);
                assert(r->Ok_0.deep_view() =~~= self.base_args_spec() + seq![
                    "deleteFileInGuest"@,
                    self.vm_path->0@,
                    guest_path@,
                ]);
            }
        }
        r
    }

    /// The command line that creates a directory on the guest.
    pub fn create_directory_in_guest(&self, guest_path: &str) -> (r: VmResult<Vec<String>>)
        ensures
            match r {
                Ok(v) => self.vm_path matches Some(n) && v.deep_view() == self.base_args_spec()
                    + seq!["createDirectoryInGuest"@, n@, guest_path@],
                Err(e) => self.vm_path is None && err_is(e, ErrorKind::VmIsNotSpecified),
            },
    {
        let r = self.vm_cmd_with("createDirectoryInGuest", &[guest_path]);
        proof {
            if r is Ok {
                assert(strs_view(seq![guest_path]) =~~= seq![guest_path@]);
                assert(r->Ok_0.deep_view() =~~= self.base_args_spec() + seq![
                    "createDirectoryInGuest"@,
                    self.vm_path->0@,
                    guest_path@,
                ]);
            }
        }
        r
    }

    /// The command line that deletes a directory on the guest.
    pub fn delete_directory_in_guest(&self, guest_path: &str) -> (r: VmResult<Vec<String>>)
        ensures
            match r {
                Ok(v) => self.vm_path matches Some(n) && v.deep_view() == self.base_args_spec()
                    + seq!["deleteDirectoryInGuest"@, n@, guest_path@],
                Err(e) => self.vm_path is None && err_is(e, ErrorKind::VmIsNotSpecified),
            },
    {
        let r = self.vm_cmd_with("deleteDirectoryInGuest", &[guest_path]);
        proof {
            if r is Ok {
                assert(strs_view(seq![guest_path]) =~~= seq![guest_path@]);
                assert(r->Ok_0.deep_view() =~~= self.base_args_spec() + seq![
                    "deleteDirectoryInGuest"@,
                    self.vm_path->0@,
                    guest_path@,
                ]);
            }
        }
        r
    }

    /// The command line that creates a temporary file on the guest; the
    /// tool prints the new file's path.
    pub fn create_temp_file_in_guest(&self) -> (r: VmResult<Vec<String>>)
        ensures
            match r {
                Ok(v) => self.vm_path matches Some(n) && v.deep_view() == self.base_args_spec()
                    + seq!["createTempFileInGuest"@, n@],
                Err(e) => self.vm_path is None && err_is(e, ErrorKind::VmIsNotSpecified),
            },
    {
        self.vm_cmd("createTempFileInGuest")
    }

    /// The command line that lists a directory on the guest.
    pub fn list_directory_in_guest(&self, guest_path: &str) -> (r: VmResult<Vec<String>>)
        ensures
            match r {
                Ok(v) => self.vm_path matches Some(n) && v.deep_view() == self.base_args_spec()
                    + seq!["listDirectoryInGuest"@, n@, guest_path@],
                Err(e) => self.vm_path is None && err_is(e, ErrorKind::VmIsNotSpecified),
            },
    {
        let r = self.vm_cmd_with("listDirectoryInGuest", &[guest_path]);
        proof {
            if r is Ok {
                assert(strs_view(seq![guest_path]) =~~= seq![guest_path@]);
                assert(r->Ok_0.deep_view() =~~= self.base_args_spec() + seq![
                    "listDirectoryInGuest"@,
                    self.vm_path->0@,
                    guest_path@,
                ]);
            }
        }
        r
    }

    /// Parses a directory listing: everything after the tool's header
    /// line, one entry per line.
    pub fn parse_directory_listing(s: &str) -> (r: Vec<String>)
        ensures
            r.deep_view() == (if lines_spec(s@).len() > 0 {
                lines_spec(s@).skip(1)
            } else {
                lines_spec(s@)
            }),
    {
        let lines = split_lines(s);
        proof {
            assert(lines.deep_view().len() == lines@.len());
        }
        let n: usize = lines.len();
        let mut out: Vec<String> = Vec::new();
        if n == 0 {
            proof {
                assert(out.deep_view() =~~= lines_spec(s@));
            }
            return out;
        }
        let mut i: usize = 1;
        proof {
            assert(out.deep_view() =~~= lines.deep_view().subrange(1, 1));
        }
        while i < n
            invariant
                n == lines@.len(),
                1 <= i <= n,
                out.deep_view() == lines.deep_view().subrange(1, i as int),
            decreases n - i,
        {
            let ghost prev = out.deep_view();
            out.push(lines[i].clone());
            proof {
                assert(out.deep_view() =~~= prev.push(lines.deep_view()[i as int]));
                assert(out.deep_view() =~~= lines.deep_view().subrange(1, i + 1));
            }
            i = i + 1;
        }
        proof {
            assert(lines.deep_view().subrange(1, n as int) =~~= lines.deep_view().skip(1));
        }
        out
    }

    /// The command line that copies a file from the host to the guest.
    pub fn copy_file_from_host_to_guest(&self, host_path: &str, guest_path: &str) -> (r: VmResult<
        Vec<String>,
    >)
        ensures
            match r {
                Ok(v) => self.vm_path matches Some(n) && v.deep_view() == self.base_args_spec()
                    + seq!["CopyFileFromHostToGuest"@, n@, host_path@, guest_path@],
                Err(e) => self.vm_path is None && err_is(e, ErrorKind::VmIsNotSpecified),
            },
    {
        let r = self.vm_cmd_with("CopyFileFromHostToGuest", &[host_path, guest_path]);
        proof {
            if r is Ok {
                assert(strs_view(seq![host_path, guest_path]) =~~= seq![host_path@, guest_path@]);
                assert(r->Ok_0.deep_view() =~~= self.base_args_spec() + seq![
                    "CopyFileFromHostToGuest"@,
                    self.vm_path->0@,
                    host_path@,
                    guest_path@,
                ]);
            }
        }
        r
    }

    /// The command line that copies a file from the guest to the host.
    pub fn copy_file_from_guest_to_host(&self, guest_path: &str, host_path: &str) -> (r: VmResult<
        Vec<String>,
    >)
        ensures
            match r {
                Ok(v) => self.vm_path matches Some(n) && v.deep_view() == self.base_args_spec()
                    + seq!["CopyFileFromGuestToHost"@, n@, guest_path@, host_path@],
                Err(e) => self.vm_path is None && err_is(e, ErrorKind::VmIsNotSpecified),
            },
    {
        let r = self.vm_cmd_with("CopyFileFromGuestToHost", &[guest_path, host_path]);
        proof {
            if r is Ok {
                assert(strs_view(seq![guest_path, host_path]) =~~= seq![guest_path@, host_path@]);
                assert(r->Ok_0.deep_view() =~~= self.base_args_spec() + seq![
                    "CopyFileFromGuestToHost"@,
                    self.vm_path->0@,
                    guest_path@,
                    host_path@,
                ]);
            }
        }
        r
    }

    /// The command line that renames a file on the guest.
    pub fn rename_file_in_guest(&self, old_path: &str, new_path: &str) -> (r: VmResult<
        Vec<String>,
    >)
        ensures
            match r {
                Ok(v) => self.vm_path matches Some(n) && v.deep_view() == self.base_args_spec()
                    + seq!["renameFileInGuest"@, n@, old_path@, new_path@],
                Err(e) => self.vm_path is None && err_is(e, ErrorKind::VmIsNotSpecified),
            },
    {
        let r = self.vm_cmd_with("renameFileInGuest", &[old_path, new_path]);
        proof {
            if r is Ok {
                assert(strs_view(seq![old_path, new_path]) =~~= seq![old_path@, new_path@]);
                assert(r->Ok_0.deep_view() =~~= self.base_args_spec() + seq![
                    "renameFileInGuest"@,
                    self.vm_path->0@,
                    old_path@,
                    new_path@,
                ]);
            }
        }
        r
    }

    /// The command line that types keystrokes on the guest's keyboard.
    pub fn type_keystrokes_in_guest(&self, keystroke: &str) -> (r: VmResult<Vec<String>>)
        ensures
            match r {
                Ok(v) => self.vm_path matches Some(n) && v.deep_view() == self.base_args_spec()
                    + seq!["typeKeystrokesInGuest"@, n@, keystroke@],
                Err(e) => self.vm_path is None && err_is(e, ErrorKind::VmIsNotSpecified),
            },
    {
        let r = self.vm_cmd_with("typeKeystrokesInGuest", &[keystroke]);
        proof {
            if r is Ok {
                assert(strs_view(seq![keystroke]) =~~= seq![keystroke@]);
                assert(r->Ok_0.deep_view() =~~= self.base_args_spec() + seq![
                    "typeKeystrokesInGuest"@,
                    self.vm_path->0@,
                    keystroke@,
                ]);
            }
        }
        r
    }

    /// The command line that captures the guest's screen into a host
    /// file.
    pub fn capture_screen(&self, host_path: &str) -> (r: VmResult<Vec<String>>)
        ensures
            match r {
                Ok(v) => self.vm_path matches Some(n) && v.deep_view() == self.base_args_spec()
                    + seq!["captureScreen"@, n@, host_path@],
                Err(e) => self.vm_path is None && err_is(e, ErrorKind::VmIsNotSpecified),
            },
    {
        let r = self.vm_cmd_with("captureScreen", &[host_path]);
        proof {
            if r is Ok {
                assert(strs_view(seq![host_path]) =~~= seq![host_path@]);
                assert(r->Ok_0.deep_view() =~~= self.base_args_spec() + seq![
                    "captureScreen"@,
                    self.vm_path->0@,
                    host_path@,
                ]);
            }
        }
        r
    }

    /// The command line that writes a variable on the guest.
    pub fn write_variable(&self, variable: WriteVar) -> (r: VmResult<Vec<String>>)
        ensures
            match r {
                Ok(v) => self.vm_path matches Some(n) && v.deep_view() == self.base_args_spec()
                    + seq!["writeVariable"@, n@] + (match variable {
                    WriteVar::GuestVar(name, value) => seq!["guestVar"@, name@, value@],
                    WriteVar::RuntimeConfig(name, value) => seq![
                        "runtimeConfig"@,
                        name@,
                        value@,
                    ],
                    WriteVar::GuestEnv(name, value) => seq!["guestEnv"@, name@, value@],
                }),
                Err(e) => self.vm_path is None && err_is(e, ErrorKind::VmIsNotSpecified),
            },
    {
        let mut v = match self.vm_cmd("writeVariable") {
            Ok(v) => v,
            Err(e) => {
                return Err(e);
            },
        };
        let ghost s0 = v.deep_view();
        match variable {
            WriteVar::GuestVar(name, value) => {
                v.push(String::from_str("guestVar"));
                v.push(name.to_owned());
                v.push(value.to_owned());
            },
            WriteVar::RuntimeConfig(name, value) => {
                v.push(String::from_str("runtimeConfig"));
                v.push(name.to_owned());
                v.push(value.to_owned());
            },
            WriteVar::GuestEnv(name, value) => {
                v.push(String::from_str("guestEnv"));
                v.push(name.to_owned());
                v.push(value.to_owned());
            },
        }
        proof {
            assert(v.deep_view() =~~= s0 + (match variable {
                WriteVar::GuestVar(name, value) => seq!["guestVar"@, name@, value@],
                WriteVar::RuntimeConfig(name, value) => seq!["runtimeConfig"@, name@, value@],
                WriteVar::GuestEnv(name, value) => seq!["guestEnv"@, name@, value@],
            }));
        }
        Ok(v)
    }

    /// The command line that reads a variable from the guest.
    pub fn read_variable(&self, variable: ReadVar) -> (r: VmResult<Vec<String>>)
        ensures
            match r {
                Ok(v) => self.vm_path matches Some(n) && v.deep_view() == self.base_args_spec()
                    + seq!["readVariable"@, n@] + (match variable {
                    ReadVar::GuestVar(name) => seq!["guestVar"@, name@],
                    ReadVar::RuntimeConfig(name) => seq!["runtimeConfig"@, name@],
                    ReadVar::GuestEnv(name) => seq!["guestEnv"@, name@],
                }),
                Err(e) => self.vm_path is None && err_is(e, ErrorKind::VmIsNotSpecified),
            },
    {
        let mut v = match self.vm_cmd("readVariable") {
            Ok(v) => v,
            Err(e) => {
                return Err(e);
            },
        };
        let ghost s0 = v.deep_view();
        match variable {
            ReadVar::GuestVar(name) => {
                v.push(String::from_str("guestVar"));
                v.push(name.to_owned());
            },
            ReadVar::RuntimeConfig(name) => {
                v.push(String::from_str("runtimeConfig"));
                v.push(name.to_owned());
            },
            ReadVar::GuestEnv(name) => {
                v.push(String::from_str("guestEnv"));
                v.push(name.to_owned());
            },
        }
        proof {
            assert(v.deep_view() =~~= s0 + (match variable {
                ReadVar::GuestVar(name) => seq!["guestVar"@, name@],
                ReadVar::RuntimeConfig(name) => seq!["runtimeConfig"@, name@],
                ReadVar::GuestEnv(name) => seq!["guestEnv"@, name@],
            }));
        }
        Ok(v)
    }

    /// What a variable read produced: nothing when the tool printed
    /// nothing.
    pub fn parse_read_variable(s: String) -> (r: Option<String>)
        ensures
            match r {
                Some(v) => s@.len() > 0 && v == s,
                None => s@.len() == 0,
            },
    {
        if s.as_str().unicode_len() == 0 {
            None
        } else {
            Some(s)
        }
    }

    /// The command line that asks for the guest's IP address, waiting for
    /// it when asked.
    pub fn get_guest_ip_address(&self, wait: bool) -> (r: VmResult<Vec<String>>)
        ensures
            match r {
                Ok(v) => self.vm_path matches Some(n) && v.deep_view() == self.base_args_spec()
                    + seq!["getGuestIPAddress"@, n@] + (if wait {
                    seq!["-wait"@]
                } else {
                    Seq::empty()
                }),
                Err(e) => self.vm_path is None && err_is(e, ErrorKind::VmIsNotSpecified),
            },
    {
        let mut v = match self.vm_cmd("getGuestIPAddress") {
            Ok(v) => v,
            Err(e) => {
                return Err(e);
            },
        };
        let ghost s0 = v.deep_view();
        if wait {
            v.push(String::from_str("-wait"));
        }
        proof {
            assert(v.deep_view() =~~= s0 + (if wait {
                seq!["-wait"@]
            } else {
                Seq::<Seq<char>>::empty()
            }));
        }
        Ok(v)
    }

    /// The command line that installs the guest service package.
    pub fn install_tools(&self) -> (r: VmResult<Vec<String>>)
        ensures
            match r {
                Ok(v) => self.vm_path matches Some(n) && v.deep_view() == self.base_args_spec()
                    + seq!["installTools"@, n@],
                Err(e) => self.vm_path is None && err_is(e, ErrorKind::VmIsNotSpecified),
            },
    {
        self.vm_cmd("installTools")
    }

    /// The command line that asks for the guest service package's state.
    pub fn check_tools_state(&self) -> (r: VmResult<Vec<String>>)
        ensures
            match r {
                Ok(v) => self.vm_path matches Some(n) && v.deep_view() == self.base_args_spec()
                    + seq!["checkToolsState"@, n@],
                Err(e) => self.vm_path is None && err_is(e, ErrorKind::VmIsNotSpecified),
            },
    {
        self.vm_cmd("checkToolsState")
    }

    /// What the tools-state answer means: installed or running count as
    /// present, unknown as absent, and anything else fails with
    /// `UnexpectedResponse` carrying the answer.
    pub fn parse_tools_state(s: &str) -> (r: VmResult<bool>)
        ensures
            match r {
                Ok(b) => b == (s@ == "installed"@ || s@ == "running"@) && (s@ == "installed"@
                    || s@ == "running"@ || s@ == "unknown"@),
                Err(e) => s@ != "installed"@ && s@ != "running"@ && s@ != "unknown"@
                    && err_is_unexpected(e, s@),
            },
    {
        if str_eq(s, "installed") {
            Ok(true)
        } else if str_eq(s, "running") {
            Ok(true)
        } else if str_eq(s, "unknown") {
            Ok(false)
        } else {
            Err(VmError::from(ErrorKind::UnexpectedResponse(s.to_owned())))
        }
    }

    /// What a file-existence answer means, after trimming: the tool's
    /// fixed yes or no sentence, anything else failing with
    /// `UnexpectedResponse` carrying the raw answer.
    pub fn parse_file_exists(s: &str) -> (r: VmResult<bool>)
        ensures
            match r {
                Ok(b) => b == (trim_spec(s@) == "The file exists."@) && (trim_spec(s@)
                    == "The file exists."@ || trim_spec(s@) == "The file does not exist."@),
                Err(e) => trim_spec(s@) != "The file exists."@ && trim_spec(s@)
                    != "The file does not exist."@ && err_is_unexpected(e, s@),
            },
    {
        let t = trim_str(s);
        if str_eq(t, "The file exists.") {
            Ok(true)
        } else if str_eq(t, "The file does not exist.") {
            Ok(false)
        } else {
            Err(VmError::from(ErrorKind::UnexpectedResponse(s.to_owned())))
        }
    }

    /// What a directory-existence answer means, after trimming.
    pub fn parse_directory_exists(s: &str) -> (r: VmResult<bool>)
        ensures
            match r {
                Ok(b) => b == (trim_spec(s@) == "The directory exists."@) && (trim_spec(s@)
                    == "The directory exists."@ || trim_spec(s@)
                    == "The directory does not exist."@),
                Err(e) => trim_spec(s@) != "The directory exists."@ && trim_spec(s@)
                    != "The directory does not exist."@ && err_is_unexpected(e, s@),
            },
    {
        let t = trim_str(s);
        if str_eq(t, "The directory exists.") {
            Ok(true)
        } else if str_eq(t, "The directory does not exist.") {
            Ok(false)
        } else {
            Err(VmError::from(ErrorKind::UnexpectedResponse(s.to_owned())))
        }
    }

    /// The command line that checks whether a file exists on the guest.
    pub fn file_exists_in_guest(&self, guest_path: &str) -> (r: VmResult<Vec<String>>)
        ensures
            match r {
                Ok(v) => self.vm_path matches Some(n) && v.deep_view() == self.base_args_spec()
                    + seq!["fileExistsInGuest"@, n@, guest_path@],
                Err(e) => self.vm_path is None && err_is(e, ErrorKind::VmIsNotSpecified),
            },
    {
        let r = self.vm_cmd_with("fileExistsInGuest", &[guest_path]);
        proof {
            if r is Ok {
                assert(strs_view(seq![guest_path]) =~~= seq![guest_path@]);
                assert(r->Ok_0.deep_view() =~~= self.base_args_spec() + seq![
                    "fileExistsInGuest"@,
                    self.vm_path->0@,
                    guest_path@,
                ]);
            }
        }
        r
    }

    /// The command line that checks whether a directory exists on the
    /// guest.
    pub fn directory_exists_in_guest(&self, guest_path: &str) -> (r: VmResult<Vec<String>>)
        ensures
            match r {
                Ok(v) => self.vm_path matches Some(n) && v.deep_view() == self.base_args_spec()
                    + seq!["directoryExistsInGuest"@, n@, guest_path@],
                Err(e) => self.vm_path is None && err_is(e, ErrorKind::VmIsNotSpecified),
            },
    {
        let r = self.vm_cmd_with("directoryExistsInGuest", &[guest_path]);
        proof {
            if r is Ok {
                assert(strs_view(seq![guest_path]) =~~= seq![guest_path@]);
                assert(r->Ok_0.deep_view() =~~= self.base_args_spec() + seq![
                    "directoryExistsInGuest"@,
                    self.vm_path->0@,
                    guest_path@,
                ]);
            }
        }
        r
    }

    /// The command line that sets a shared folder's writability.
    pub fn set_shared_folder_state(&self, name: &str, host_path: &str, writable: bool) -> (r:
        Vec<String>)
        ensures
            r.deep_view() == self.base_args_spec() + seq![
                "setSharedFolderState"@,
                name@,
                host_path@,
            ] + (if writable {
                seq!["writable"@]
            } else {
                seq!["readonly"@]
            }),
    {
        let mut v = self.base_cmd();
        let ghost s0 = v.deep_view();
        v.push(String::from_str("setSharedFolderState"));
        v.push(name.to_owned());
        v.push(host_path.to_owned());
        if writable {
            v.push(String::from_str("writable"));
        } else {
            v.push(String::from_str("readonly"));
        }
        proof {
            assert(v.deep_view() =~~= s0 + seq!["setSharedFolderState"@, name@, host_path@] + (
            if writable {
                seq!["writable"@]
            } else {
                seq!["readonly"@]
            }));
        }
        v
    }

    /// The command line that adds a shared folder.
    pub fn add_shared_folder(&self, name: &str, host_path: &str) -> (r: Vec<String>)
        ensures
            r.deep_view() == self.base_args_spec() + seq!["addSharedFolder"@, name@, host_path@],
    {
        let mut v = self.base_cmd();
        let ghost s0 = v.deep_view();
        v.push(String::from_str("addSharedFolder"));
        v.push(name.to_owned());
        v.push(host_path.to_owned());
        proof {
            assert(v.deep_view() =~~= s0 + seq!["addSharedFolder"@, name@, host_path@]);
        }
        v
    }

    /// The command line that removes a shared folder.
    pub fn remove_shared_folder(&self, name: &str) -> (r: Vec<String>)
        ensures
            r.deep_view() == self.base_args_spec() + seq!["removeSharedFolder"@, name@],
    {
        let mut v = self.base_cmd();
        let ghost s0 = v.deep_view();
        v.push(String::from_str("removeSharedFolder"));
        v.push(name.to_owned());
        proof {
            assert(v.deep_view() =~~= s0 + seq!["removeSharedFolder"@, name@]);
        }
        v
    }

    /// The command line that enables shared folders.
    pub fn enable_shared_folders(&self, name: &str, only_runtime: bool) -> (r: Vec<String>)
        ensures
            r.deep_view() == self.base_args_spec() + seq!["enableSharedFolders"@, name@] + (
            if only_runtime {
                seq!["runtime"@]
            } else {
                Seq::empty()
            }),
    {
        let mut v = self.base_cmd();
        let ghost s0 = v.deep_view();
        v.push(String::from_str("enableSharedFolders"));
        v.push(name.to_owned());
        if only_runtime {
            v.push(String::from_str("runtime"));
        }
        proof {
            assert(v.deep_view() =~~= s0 + seq!["enableSharedFolders"@, name@] + (
            if only_runtime {
                seq!["runtime"@]
            } else {
                Seq::<Seq<char>>::empty()
            }));
        }
        v
    }

    /// The command line that disables shared folders.
    pub fn disable_shared_folders(&self, name: &str, only_runtime: bool) -> (r: Vec<String>)
        ensures
            r.deep_view() == self.base_args_spec() + seq!["disableSharedFolders"@, name@] + (
            if only_runtime {
                seq!["runtime"@]
            } else {
                Seq::empty()
            }),
    {
        let mut v = self.base_cmd();
        let ghost s0 = v.deep_view();
        v.push(String::from_str("disableSharedFolders"));
        v.push(name.to_owned());
        if only_runtime {
            v.push(String::from_str("runtime"));
        }
        proof {
            assert(v.deep_view() =~~= s0 + seq!["disableSharedFolders"@, name@] + (
            if only_runtime {
                seq!["runtime"@]
            } else {
                Seq::<Seq<char>>::empty()
            }));
        }
        v
    }

    /// The command line that unregisters and deletes the selected VM.
    pub fn delete_vm(&self) -> (r: VmResult<Vec<String>>)
        ensures
            match r {
                Ok(v) => self.vm_path matches Some(n) && v.deep_view() == self.base_args_spec()
                    + seq!["deleteVM"@, n@],
                Err(e) => self.vm_path is None && err_is(e, ErrorKind::VmIsNotSpecified),
            },
    {
        self.vm_cmd("deleteVM")
    }

    /// This backend cannot address VMs by id; selecting by id is
    /// unsupported.
    pub fn set_vm_by_id(&mut self, _id: &str) -> (r: VmResult<()>)
        ensures
            *final(self) == *old(self),
            r matches Err(e) && err_is(e, ErrorKind::UnsupportedCommand),
    {
        Err(VmError::from(ErrorKind::UnsupportedCommand))
    }

    /// Selects the VM whose record in `vms` carries `name`, taking the
    /// first match's path; fails with `VmNotFound` when none matches.
    pub fn set_vm_by_name(&mut self, vms: &Vec<Vm>, name: &str) -> (r: VmResult<()>)
        ensures
            match r {
                Ok(_) => exists|k: int|
                    0 <= k < vms@.len() && ((#[trigger] vms@[k]).name matches Some(n) && n@
                        == name@) && final(self).vm_path == vms@[k].path,
                Err(e) => *final(self) == *old(self) && err_is(e, ErrorKind::VmNotFound)
                    && forall|k: int|
                    0 <= k < vms@.len() ==> !((#[trigger] vms@[k]).name matches Some(n) && n@
                        == name@),
            },
    {
        let len: usize = vms.len();
        let mut i: usize = 0;
        while i < len
            invariant
                len == vms@.len(),
                0 <= i <= len,
                forall|k: int|
                    0 <= k < i ==> !((#[trigger] vms@[k]).name matches Some(n) && n@ == name@),
                *self == *old(self),
            decreases len - i,
        {
            match &vms[i].name {
                Some(n) => {
                    if str_eq(n.as_str(), name) {
                        self.vm_path = crate::types::clone_opt_string(&vms[i].path);
                        return Ok(());
                    }
                },
                None => {},
            }
            i = i + 1;
        }
        Err(VmError::from(ErrorKind::VmNotFound))
    }

    /// Selects the VM whose record in `vms` carries `path`; fails with
    /// `VmNotFound` when none matches.
    pub fn set_vm_by_path(&mut self, vms: &Vec<Vm>, path: &str) -> (r: VmResult<()>)
        ensures
            match r {
                Ok(_) => exists|k: int|
                    0 <= k < vms@.len() && ((#[trigger] vms@[k]).path matches Some(n) && n@
                        == path@) && final(self).vm_path == vms@[k].path,
                Err(e) => *final(self) == *old(self) && err_is(e, ErrorKind::VmNotFound)
                    && forall|k: int|
                    0 <= k < vms@.len() ==> !((#[trigger] vms@[k]).path matches Some(n) && n@
                        == path@),
            },
    {
        let len: usize = vms.len();
        let mut i: usize = 0;
        while i < len
            invariant
                len == vms@.len(),
                0 <= i <= len,
                forall|k: int|
                    0 <= k < i ==> !((#[trigger] vms@[k]).path matches Some(n) && n@ == path@),
                *self == *old(self),
            decreases len - i,
        {
            match &vms[i].path {
                Some(n) => {
                    if str_eq(n.as_str(), path) {
                        self.vm_path = crate::types::clone_opt_string(&vms[i].path);
                        return Ok(());
                    }
                },
                None => {},
            }
            i = i + 1;
        }
        Err(VmError::from(ErrorKind::VmNotFound))
    }

    /// Whether the selected VM stands in the running-VM list `running`;
    /// fails with the VM-not-specified error when none is selected.
    pub fn is_running(&self, running: &Vec<Vm>) -> (r: VmResult<bool>)
        ensures
            match r {
                Ok(b) => self.vm_path matches Some(me) && b == exists|k: int|
                    0 <= k < running@.len() && ((#[trigger] running@[k]).path matches Some(p)
                        && p@ == me@),
                Err(e) => self.vm_path is None && err_is(e, ErrorKind::VmIsNotSpecified),
            },
    {
        let me = match self.get_vm() {
            Ok(v) => v,
            Err(e) => {
                return Err(e);
            },
        };
        let len: usize = running.len();
        let mut i: usize = 0;
        while i < len
            invariant
                len == running@.len(),
                0 <= i <= len,
                self.vm_path matches Some(m) && m == me,
                forall|k: int|
                    0 <= k < i ==> !((#[trigger] running@[k]).path matches Some(p) && p@
                        == me@),
            decreases len - i,
        {
            match &running[i].path {
                Some(p) => {
                    if str_eq(p.as_str(), me.as_str()) {
                        return Ok(true);
                    }
                },
                None => {},
            }
            i = i + 1;
        }
        Ok(false)
    }
}

} // verus!
