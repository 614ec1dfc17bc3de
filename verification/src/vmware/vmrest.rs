//! The remote HTTP-API backend: it builds one request per operation —
//! method, versioned URL and JSON body — and interprets the JSON answers
//! and the `{code, message}` error envelope the server sends on failure.
//! The host program performs the HTTP calls with the configured
//! credentials and hands the response text back.
use crate::json::{
    jarr_field, jint_field, json_as_array, json_as_i64, json_as_str, json_doc, json_get,
    json_model, json_parse, json_wf, jstr_field, JVal,
};
use crate::text::{
    find_str, find_sub_idx, first_idx_of, is_prefix_of, lines_spec, split_lines, str_eq,
    strip_prefix_str, trim_spec, trim_str,
};
use crate::types::{
    err_is, err_is_invalid_parameter, err_is_invalid_state, err_is_unexpected, err_is_unknown,
    ErrorKind, Nic, NicType, Repr, SharedFolder, Vm, VmError, VmPowerState, VmResult,
};
use vstd::prelude::*;
use vstd::string::*;

verus! {

/// The power transitions the HTTP API accepts.
#[derive(Debug, Clone, Copy, PartialEq, Eq, Structural, Hash)]
pub enum VmRestPowerCommand {
    On,
    Off,
    Shutdown,
    Suspend,
}

impl VmRestPowerCommand {
    /// The request body that asks for this transition.
    pub fn to_command(&self) -> (r: &'static str)
        ensures
            r@ == (match *self {
                VmRestPowerCommand::On => "on"@,
                VmRestPowerCommand::Off => "off"@,
                VmRestPowerCommand::Shutdown => "shutdown"@,
                VmRestPowerCommand::Suspend => "suspend"@,
            }),
    {
        match self {
            VmRestPowerCommand::On => "on",
            VmRestPowerCommand::Off => "off",
            VmRestPowerCommand::Shutdown => "shutdown",
            VmRestPowerCommand::Suspend => "suspend",
        }
    }
}

/// The HTTP backend's configuration: the server process's executable,
/// the base URL, the selected VM id, an optional proxy, the response
/// text encoding, and the API account.
#[derive(Debug, Clone)]
pub struct VmRest {
    pub executable_path: String,
    pub url: String,
    pub vm_id: Option<String>,
    pub proxy: Option<String>,
    pub encoding: String,
    pub username: Option<String>,
    pub password: Option<String>,
}

impl Default for VmRest {
    /// The default configuration: the bare server executable, the local
    /// default URL, UTF-8 responses, nothing selected.
    fn default() -> (r: Self)
        ensures
            r.executable_path@ == "vmrest"@,
            r.url@ == "http://127.0.0.1:8697"@,
            r.encoding@ == "utf-8"@,
            r.vm_id is None,
            r.proxy is None,
            r.username is None,
            r.password is None,
    {
        Self::new()
    }
}

/// The error a JSON error-envelope message classifies to: the server's
/// message vocabulary, first match wins, unmatched text kept verbatim.
pub open spec fn vmrest_error_spec(s: Seq<char>, e: VmError) -> bool {
    if is_prefix_of("Redundant parameter: "@, s) {
        err_is_invalid_parameter(e, s.skip("Redundant parameter: "@.len() as int))
    } else if is_prefix_of("One of the parameters was invalid: "@, s) {
        err_is_invalid_parameter(e, s.skip("One of the parameters was invalid: "@.len() as int))
    } else if s == "Authentication failed"@ {
        err_is(e, ErrorKind::AuthenticationFailed)
    } else if s == "The virtual machine is not powered on"@ {
        err_is_invalid_state(e, VmPowerState::NotRunning)
    } else if s == "The virtual network cannot be found"@ {
        err_is(e, ErrorKind::NetworkNotFound)
    } else if s == "The network adapter cannot be found"@ {
        err_is(e, ErrorKind::NetworkAdaptorNotFound)
    } else {
        err_is_unknown(e, "Unknown error: "@ + s)
    }
}

/// Law: error translation is deterministic and total. Every envelope
/// message classifies, and any two errors classified from the same
/// message are the same error.
pub proof fn lemma_vmrest_classification_unique(s: Seq<char>, e1: VmError, e2: VmError)
    requires
        vmrest_error_spec(s, e1),
        vmrest_error_spec(s, e2),
    ensures
        crate::types::vm_error_eq(e1, e2),
{
}

impl VmRest {
    /// A fresh configuration with nothing selected.
    pub fn new() -> (r: Self)
        ensures
            r.executable_path@ == "vmrest"@,
            r.url@ == "http://127.0.0.1:8697"@,
            r.encoding@ == "utf-8"@,
            r.vm_id is None,
            r.proxy is None,
            r.username is None,
            r.password is None,
    {
        VmRest {
            executable_path: String::from_str("vmrest"),
            url: String::from_str("http://127.0.0.1:8697"),
            vm_id: None,
            proxy: None,
            encoding: String::from_str("utf-8"),
            username: None,
            password: None,
        }
    }

    /// Sets the path to the server executable.
    pub fn executable_path(&mut self, executable_path: String)
        ensures
            *final(self) == (VmRest { executable_path, ..*old(self) }),
    {
        self.executable_path = executable_path;
    }

    /// Sets the server's base URL.
    pub fn url(&mut self, url: String)
        ensures
            *final(self) == (VmRest { url, ..*old(self) }),
    {
        self.url = url;
    }

    /// Selects the VM to be manipulated, by its API id.
    pub fn vm_id(&mut self, vm_id: Option<String>)
        ensures
            *final(self) == (VmRest { vm_id, ..*old(self) }),
    {
        self.vm_id = vm_id;
    }

    /// Sets the API account name.
    pub fn username(&mut self, username: Option<String>)
        ensures
            *final(self) == (VmRest { username, ..*old(self) }),
    {
        self.username = username;
    }

    /// Sets the API account password.
    pub fn password(&mut self, password: Option<String>)
        ensures
            *final(self) == (VmRest { password, ..*old(self) }),
    {
        self.password = password;
    }

    /// Sets an HTTP proxy for the requests.
    pub fn proxy(&mut self, proxy: Option<String>)
        ensures
            *final(self) == (VmRest { proxy, ..*old(self) }),
    {
        self.proxy = proxy;
    }

    /// Sets the encoding the response text is decoded with.
    pub fn encoding(&mut self, encoding: String)
        ensures
            *final(self) == (VmRest { encoding, ..*old(self) }),
    {
        self.encoding = encoding;
    }

    /// The selected VM id, or the error every operation that needs one
    /// returns.
    pub fn get_vm_id(&self) -> (r: VmResult<&String>)
        ensures
            match r {
                Ok(v) => self.vm_id matches Some(n) && v == n,
                Err(e) => self.vm_id is None && err_is(e, ErrorKind::VmIsNotSpecified),
            },
    {
        match &self.vm_id {
            Some(v) => Ok(v),
            None => Err(VmError::from(ErrorKind::VmIsNotSpecified)),
        }
    }

    /// The URL that lists the VMs.
    pub fn vms_url(&self) -> (r: String)
        ensures
            r@ == self.url@ + "/api/vms"@,
    {
        let mut r = self.url.clone();
        r.append("/api/vms");
        r
    }

    /// The URL of the API description document the version is read from.
    pub fn version_url(&self) -> (r: String)
        ensures
            r@ == self.url@ + "/json/swagger.json"@,
    {
        let mut r = self.url.clone();
        r.append("/json/swagger.json");
        r
    }

    /// The URL of the selected VM.
    pub fn vm_url(&self) -> (r: VmResult<String>)
        ensures
            match r {
                Ok(u) => self.vm_id matches Some(n) && u@ == self.url@ + "/api/vms/"@ + n@,
                Err(e) => self.vm_id is None && err_is(e, ErrorKind::VmIsNotSpecified),
            },
    {
        let id = match self.get_vm_id() {
            Ok(v) => v,
            Err(e) => {
                return Err(e);
            },
        };
        let mut r = self.url.clone();
        r.append("/api/vms/");
        r.append(id.as_str());
        Ok(r)
    }

    fn vm_sub_url(&self, sub: &str) -> (r: VmResult<String>)
        ensures
            match r {
                Ok(u) => self.vm_id matches Some(n) && u@ == self.url@ + "/api/vms/"@ + n@
                    + sub@,
                Err(e) => self.vm_id is None && err_is(e, ErrorKind::VmIsNotSpecified),
            },
    {
        let mut r = match self.vm_url() {
            Ok(u) => u,
            Err(e) => {
                return Err(e);
            },
        };
        r.append(sub);
        Ok(r)
    }

    /// The URL of the selected VM's power resource.
    pub fn power_url(&self) -> (r: VmResult<String>)
        ensures
            match r {
                Ok(u) => self.vm_id matches Some(n) && u@ == self.url@ + "/api/vms/"@ + n@
                    + "/power"@,
                Err(e) => self.vm_id is None && err_is(e, ErrorKind::VmIsNotSpecified),
            },
    {
        self.vm_sub_url("/power")
    }

    /// The URL of the selected VM's IP resource.
    pub fn ip_url(&self) -> (r: VmResult<String>)
        ensures
            match r {
                Ok(u) => self.vm_id matches Some(n) && u@ == self.url@ + "/api/vms/"@ + n@
                    + "/ip"@,
                Err(e) => self.vm_id is None && err_is(e, ErrorKind::VmIsNotSpecified),
            },
    {
        self.vm_sub_url("/ip")
    }

    /// The URL of the selected VM's NIC list.
    pub fn nic_url(&self) -> (r: VmResult<String>)
        ensures
            match r {
                Ok(u) => self.vm_id matches Some(n) && u@ == self.url@ + "/api/vms/"@ + n@
                    + "/nic"@,
                Err(e) => self.vm_id is None && err_is(e, ErrorKind::VmIsNotSpecified),
            },
    {
        self.vm_sub_url("/nic")
    }

    /// The URL of one NIC of the selected VM, by adapter index.
    pub fn nic_index_url(&self, index: i64) -> (r: VmResult<String>)
        ensures
            match r {
                Ok(u) => self.vm_id matches Some(n) && u@ == self.url@ + "/api/vms/"@ + n@
                    + "/nic/"@ + crate::text::int_dec_spec(index as int),
                Err(e) => self.vm_id is None && err_is(e, ErrorKind::VmIsNotSpecified),
            },
    {
        let mut r = match self.vm_sub_url("/nic/") {
            Ok(u) => u,
            Err(e) => {
                return Err(e);
            },
        };
        let d = crate::text::fmt_i64(index);
        r.append(d.as_str());
        Ok(r)
    }

    /// The URL of the selected VM's shared-folder list.
    pub fn sharedfolders_url(&self) -> (r: VmResult<String>)
        ensures
            match r {
                Ok(u) => self.vm_id matches Some(n) && u@ == self.url@ + "/api/vms/"@ + n@
                    + "/sharedfolders"@,
                Err(e) => self.vm_id is None && err_is(e, ErrorKind::VmIsNotSpecified),
            },
    {
        self.vm_sub_url("/sharedfolders")
    }

    /// The URL of one shared folder of the selected VM.
    pub fn sharedfolder_url(&self, folder_id: &str) -> (r: VmResult<String>)
        ensures
            match r {
                Ok(u) => self.vm_id matches Some(n) && u@ == self.url@ + "/api/vms/"@ + n@
                    + "/sharedfolders/"@ + folder_id@,
                Err(e) => self.vm_id is None && err_is(e, ErrorKind::VmIsNotSpecified),
            },
    {
        let mut r = match self.vm_sub_url("/sharedfolders/") {
            Ok(u) => u,
            Err(e) => {
                return Err(e);
            },
        };
        r.append(folder_id);
        Ok(r)
    }

    /// Classifies one message of the server's JSON error envelope, first
    /// match wins; unmatched text is preserved verbatim.
    pub fn handle_json_error(s: &str) -> (r: VmError)
        ensures
            vmrest_error_spec(s@, r),
    {
        match strip_prefix_str(s, "Redundant parameter: ") {
            Some(rest) => {
                return VmError::from(ErrorKind::InvalidParameter(rest.to_owned()));
            },
            None => {},
        }
        match strip_prefix_str(s, "One of the parameters was invalid: ") {
            Some(rest) => {
                return VmError::from(ErrorKind::InvalidParameter(rest.to_owned()));
            },
            None => {},
        }
        if str_eq(s, "Authentication failed") {
            return VmError::from(ErrorKind::AuthenticationFailed);
        }
        if str_eq(s, "The virtual machine is not powered on") {
            return VmError::from(ErrorKind::InvalidPowerState(VmPowerState::NotRunning));
        }
        if str_eq(s, "The virtual network cannot be found") {
            return VmError::from(ErrorKind::NetworkNotFound);
        }
        if str_eq(s, "The network adapter cannot be found") {
            return VmError::from(ErrorKind::NetworkAdaptorNotFound);
        }
        let mut t = String::from_str("Unknown error: ");
        t.append(s);
        VmError::from(Repr::Unknown(t))
    }

    /// Inspects a failure body: the plain not-found page means the
    /// endpoint does not exist; a JSON object carrying a numeric code and
    /// a string message classifies the message; anything else passes
    /// through as the response.
    pub fn handle_error(s: String) -> (r: VmResult<String>)
        ensures
            ({
                let ts = trim_spec(s@);
                if ts == "404 page not found"@ {
                    r matches Err(e) && err_is(e, ErrorKind::UnsupportedCommand)
                } else if json_wf(ts) && envelope_code_ok(json_doc(ts)) && envelope_msg(
                    json_doc(ts),
                ) is Some {
                    r matches Err(e) && vmrest_error_spec(envelope_msg(json_doc(ts))->0, e)
                } else {
                    r matches Ok(t) && t == s
                }
            }),
    {
        let ts = trim_str(s.as_str());
        if str_eq(ts, "404 page not found") {
            return Err(VmError::from(ErrorKind::UnsupportedCommand));
        }
        let v = match json_parse(ts) {
            Some(v) => v,
            None => {
                return Ok(s);
            },
        };
        if !Self::envelope_code_present(&v) {
            return Ok(s);
        }
        match Self::envelope_message(&v) {
            Some(m) => {
                let e = Self::handle_json_error(m.as_str());
                proof {
                    assert(vmrest_error_spec(m@, e));
                }
                Err(e)
            },
            None => Ok(s),
        }
    }

    fn envelope_code_present(v: &serde_json::Value) -> (r: bool)
        ensures
            r == envelope_code_ok(json_model(*v)),
    {
        match json_get(v, "code") {
            Some(x) => json_as_i64(x).is_some(),
            None => match json_get(v, "Code") {
                Some(x) => json_as_i64(x).is_some(),
                None => false,
            },
        }
    }

    fn envelope_message(v: &serde_json::Value) -> (r: Option<String>)
        ensures
            match r {
                Some(m) => envelope_msg(json_model(*v)) matches Some(q) && m@ == q,
                None => envelope_msg(json_model(*v)) is None,
            },
    {
        match json_get(v, "message") {
            Some(x) => json_as_str(x),
            None => match json_get(v, "Message") {
                Some(x) => json_as_str(x),
                None => None,
            },
        }
    }

    /// The power state a state answer's text denotes, exactly: the three
    /// states the API spells, anything else failing with
    /// `UnexpectedResponse` carrying the text.
    pub fn power_state_of_str(s: &str) -> (r: VmResult<VmPowerState>)
        ensures
            match r {
                Ok(st) => (s@ == "poweredOn"@ && st == VmPowerState::Running) || (s@
                    == "poweredOff"@ && st == VmPowerState::Stopped) || (s@ == "suspended"@
                    && st == VmPowerState::Suspended),
                Err(e) => s@ != "poweredOn"@ && s@ != "poweredOff"@ && s@ != "suspended"@
                    && err_is_unexpected(e, s@),
            },
    {
        if str_eq(s, "poweredOn") {
            Ok(VmPowerState::Running)
        } else if str_eq(s, "poweredOff") {
            Ok(VmPowerState::Stopped)
        } else if str_eq(s, "suspended") {
            Ok(VmPowerState::Suspended)
        } else {
            Err(VmError::from(ErrorKind::UnexpectedResponse(s.to_owned())))
        }
    }

    /// The power state in a power answer: the string `power_state`
    /// member of the JSON answer, mapped exactly by `power_state_of_str`;
    /// an answer without one fails with `UnexpectedResponse` carrying the
    /// answer.
    pub fn parse_power_state(s: &str) -> (r: VmResult<VmPowerState>)
        ensures
            ({
                if json_wf(s@) && jstr_field(json_doc(s@), "power_state"@) is Some {
                    let t = jstr_field(json_doc(s@), "power_state"@)->0;
                    if t == "poweredOn"@ {
                        r matches Ok(st) && st == VmPowerState::Running
                    } else if t == "poweredOff"@ {
                        r matches Ok(st) && st == VmPowerState::Stopped
                    } else if t == "suspended"@ {
                        r matches Ok(st) && st == VmPowerState::Suspended
                    } else {
                        r matches Err(e) && err_is_unexpected(e, t)
                    }
                } else {
                    r matches Err(e) && err_is_unexpected(e, s@)
                }
            }),
    {
        let v = match json_parse(s) {
            Some(v) => v,
            None => {
                return Err(VmError::from(ErrorKind::UnexpectedResponse(s.to_owned())));
            },
        };
        match crate::json::get_str_field(&v, "power_state") {
            Some(t) => {
                proof {
                    assert(jstr_field(json_doc(s@), "power_state"@) matches Some(q) && t@
                        == q);
                }
                let ts2 = t.as_str();
                proof {
                    assert(ts2@ == t@);
                }
                let r2 = Self::power_state_of_str(ts2);
                proof {
                    reveal_strlit("poweredOn");
                    reveal_strlit("poweredOff");
                    reveal_strlit("suspended");
                    let q = jstr_field(json_doc(s@), "power_state"@)->0;
                    assert(ts2@ == q);
                    assert("poweredOn"@[0] == 'p' && "suspended"@[0] == 's');
                    assert("poweredOn"@.len() == 9 && "poweredOff"@.len() == 10
                        && "suspended"@.len() == 9);
                    if q == "poweredOn"@ {
                        assert(r2 matches Ok(st) && st == VmPowerState::Running);
                    } else if q == "poweredOff"@ {
                        assert(r2 matches Ok(st) && st == VmPowerState::Stopped);
                    } else if q == "suspended"@ {
                        assert(r2 matches Ok(st) && st == VmPowerState::Suspended);
                    } else {
                        assert(r2 matches Err(e) && err_is_unexpected(e, q));
                    }
                }
                r2
            },
            None => Err(VmError::from(ErrorKind::UnexpectedResponse(s.to_owned()))),
        }
    }

    /// Checks an observed power state against the one a transition owes:
    /// the expected state is success, any other is `InvalidPowerState`
    /// carrying what was observed, and an error passes through.
    pub fn expected_power_state(res: VmResult<VmPowerState>, expected: VmPowerState) -> (r:
        VmResult<()>)
        ensures
            match res {
                Ok(x) => if x == expected {
                    r is Ok
                } else {
                    r matches Err(e) && err_is_invalid_state(e, x)
                },
                Err(x) => r matches Err(e) && e == x,
            },
    {
        match res {
            Ok(x) => {
                if x == expected {
                    Ok(())
                } else {
                    Err(VmError::from(ErrorKind::InvalidPowerState(x)))
                }
            },
            Err(x) => Err(x),
        }
    }

    /// Decides one soft-stop poll from the observed state: powered off
    /// is done, still running is polled again, any other state or error
    /// aborts.
    pub fn classify_stop_attempt(res: VmResult<VmPowerState>) -> (r:
        crate::convergence::Decision)
        ensures
            match res {
                Ok(x) => if x == VmPowerState::Stopped {
                    r is Done
                } else if x == VmPowerState::Running {
                    r is Continue
                } else {
                    r matches crate::convergence::Decision::Fail(e) && err_is_invalid_state(
                        e,
                        x,
                    )
                },
                Err(x) => r matches crate::convergence::Decision::Fail(e) && e == x,
            },
    {
        match res {
            Ok(VmPowerState::Stopped) => crate::convergence::Decision::Done,
            Ok(VmPowerState::Running) => crate::convergence::Decision::Continue,
            Ok(x) => crate::convergence::Decision::Fail(
                VmError::from(ErrorKind::InvalidPowerState(x)),
            ),
            Err(x) => crate::convergence::Decision::Fail(x),
        }
    }

    /// The IP address in an IP answer: its string `ip` member; an answer
    /// without one fails with `UnexpectedResponse` carrying the answer.
    pub fn parse_ip_address(s: &str) -> (r: VmResult<String>)
        ensures
            match r {
                Ok(v) => json_wf(s@) && (jstr_field(json_doc(s@), "ip"@) matches Some(t) && v@
                    == t),
                Err(e) => (!json_wf(s@) || jstr_field(json_doc(s@), "ip"@) is None)
                    && err_is_unexpected(e, s@),
            },
    {
        let v = match json_parse(s) {
            Some(v) => v,
            None => {
                return Err(VmError::from(ErrorKind::UnexpectedResponse(s.to_owned())));
            },
        };
        match crate::json::get_str_field(&v, "ip") {
            Some(t) => Ok(t),
            None => Err(VmError::from(ErrorKind::UnexpectedResponse(s.to_owned()))),
        }
    }

    /// The VM list in a listing answer: a JSON array whose elements'
    /// string id, name and path members, where present, become the VM's
    /// fields, in order; anything that is not a well-formed JSON array
    /// fails with `UnexpectedResponse` carrying the answer.
    pub fn parse_vms(s: &str) -> (r: VmResult<Vec<Vm>>)
        ensures
            match r {
                Ok(v) => json_wf(s@) && (json_doc(s@) matches JVal::Arr(elems) && v@.len()
                    == elems.len() && forall|k: int|
                    0 <= k < elems.len() ==> rest_vm_matches(#[trigger] v@[k], elems[k])),
                Err(e) => (!json_wf(s@) || !(json_doc(s@) is Arr)) && err_is_unexpected(
                    e,
                    s@,
                ),
            },
    {
        let v = match json_parse(s) {
            Some(v) => v,
            None => {
                return Err(VmError::from(ErrorKind::UnexpectedResponse(s.to_owned())));
            },
        };
        let items = match json_as_array(&v) {
            Some(x) => x,
            None => {
                return Err(VmError::from(ErrorKind::UnexpectedResponse(s.to_owned())));
            },
        };
        let ghost elems = crate::json::arr_models(items@);
        let mut out: Vec<Vm> = Vec::new();
        let n: usize = items.len();
        let mut i: usize = 0;
        while i < n
            invariant
                n == items@.len(),
                n == elems.len(),
                elems == crate::json::arr_models(items@),
                0 <= i <= n,
                out@.len() == i,
                forall|k: int| 0 <= k < i ==> rest_vm_matches(#[trigger] out@[k], elems[k]),
            decreases n - i,
        {
            let id = crate::json::get_str_field(&items[i], "id");
            let name = crate::json::get_str_field(&items[i], "name");
            let path = crate::json::get_str_field(&items[i], "path");
            let vm = Vm { id, name, path };
            proof {
                assert(elems[i as int] == json_model(items@[i as int]));
                assert(rest_vm_matches(vm, elems[i as int]));
            }
            out.push(vm);
            i = i + 1;
        }
        Ok(out)
    }

    /// The id of the first VM in `vms` whose record carries `path`;
    /// `VmNotFound` when no record matches or the first match has no id.
    pub fn get_vm_id_by_path(vms: &Vec<Vm>, path: &str) -> (r: VmResult<String>)
        ensures
            match r {
                Ok(id) => vm_id_by_path_spec(vms@, path@) matches Some(q) && id@ == q,
                Err(e) => vm_id_by_path_spec(vms@, path@) is None && err_is(
                    e,
                    ErrorKind::VmNotFound,
                ),
            },
    {
        let len: usize = vms.len();
        let mut i: usize = 0;
        proof {
            assert(vms@.skip(0) =~~= vms@);
        }
        while i < len
            invariant
                len == vms@.len(),
                0 <= i <= len,
                vm_id_by_path_spec(vms@, path@) == vm_id_by_path_spec(
                    vms@.skip(i as int),
                    path@,
                ),
            decreases len - i,
        {
            proof {
                assert(vms@.skip(i as int)[0] == vms@[i as int]);
                assert(vms@.skip(i as int).skip(1) =~~= vms@.skip(i + 1));
            }
            match &vms[i].path {
                Some(p) => {
                    if str_eq(p.as_str(), path) {
                        match &vms[i].id {
                            Some(id) => {
                                return Ok(id.clone());
                            },
                            None => {
                                return Err(VmError::from(ErrorKind::VmNotFound));
                            },
                        }
                    }
                },
                None => {},
            }
            i = i + 1;
        }
        proof {
            assert(vms@.skip(len as int).len() == 0);
        }
        Err(VmError::from(ErrorKind::VmNotFound))
    }

    /// The display name declared in a VM configuration file's text: the
    /// value of the first display-name line when it holds at least its
    /// closing quote, which is dropped; nothing when no such line occurs
    /// or the first one is empty.
    pub fn get_display_name_from_vmx(s: &str) -> (r: Option<String>)
        ensures
            match r {
                Some(v) => vmx_display_name_spec(lines_spec(s@)) matches Some(q) && v@ == q,
                None => vmx_display_name_spec(lines_spec(s@)) is None,
            },
    {
        let lines = split_lines(s);
        proof {
            assert(lines.deep_view().len() == lines@.len());
            assert(lines_spec(s@).skip(0) =~~= lines_spec(s@));
        }
        let n: usize = lines.len();
        let mut i: usize = 0;
        while i < n
            invariant
                n == lines@.len(),
                lines.deep_view() == lines_spec(s@),
                0 <= i <= n,
                vmx_display_name_spec(lines_spec(s@)) == vmx_display_name_spec(
                    lines_spec(s@).skip(i as int),
                ),
            decreases n - i,
        {
            let l: &String = &lines[i];
            proof {
                assert(l@ == lines.deep_view()[i as int]);
                assert(lines_spec(s@).skip(i as int)[0] == lines_spec(s@)[i as int]);
                assert(lines_spec(s@).skip(i as int).skip(1) =~~= lines_spec(s@).skip(i + 1));
            }
            match strip_prefix_str(l.as_str(), "displayName = \"") {
                Some(dn) => {
                    proof {
                        assert(dn@ =~= l@.skip("displayName = \""@.len() as int));
                    }
                    let dnlen: usize = dn.unicode_len();
                    if dnlen == 0 {
                        return None;
                    }
                    let out = dn.substring_char(0, dnlen - 1).to_owned();
                    proof {
                        assert(out@ =~= dn@.take(dn@.len() - 1));
                    }
                    return Some(out);
                },
                None => {},
            }
            i = i + 1;
        }
        proof {
            assert(lines_spec(s@).skip(n as int).len() == 0);
        }
        None
    }

    /// The NIC type a listing spells, exactly; an unknown spelling fails
    /// with `UnexpectedResponse` carrying it.
    pub fn nic_type_of_str(s: &str) -> (r: VmResult<NicType>)
        ensures
            match r {
                Ok(t) => nic_ty_matches(t, s@),
                Err(e) => s@ != "bridged"@ && s@ != "nat"@ && s@ != "hostOnly"@ && s@
                    != "custom"@ && err_is_unexpected(e, s@),
            },
    {
        if str_eq(s, "bridged") {
            Ok(NicType::Bridge)
        } else if str_eq(s, "nat") {
            Ok(NicType::NAT)
        } else if str_eq(s, "hostOnly") {
            Ok(NicType::HostOnly)
        } else if str_eq(s, "custom") {
            Ok(NicType::Custom(String::new()))
        } else {
            Err(VmError::from(ErrorKind::UnexpectedResponse(s.to_owned())))
        }
    }

    fn nic_of_value(v: &serde_json::Value) -> (r: Option<(i64, Nic)>)
        ensures
            match r {
                Some(t) => nic_rec_of(json_model(*v)) matches Some(q) && t.0 as int == q.0
                    && nic_matches(t.1, q),
                None => nic_rec_of(json_model(*v)) is None,
            },
    {
        let index = match crate::json::get_i64_field(v, "index") {
            Some(y) => y,
            None => {
                return None;
            },
        };
        let ty = match crate::json::get_str_field(v, "type") {
            Some(y) => y,
            None => {
                return None;
            },
        };
        let vmnet = match crate::json::get_str_field(v, "vmnet") {
            Some(y) => y,
            None => {
                return None;
            },
        };
        let mac = match crate::json::get_str_field(v, "macAddress") {
            Some(y) => y,
            None => {
                return None;
            },
        };
        let ty = match Self::nic_type_of_str(ty.as_str()) {
            Ok(t) => t,
            Err(_) => {
                return None;
            },
        };
        Some(
            (
                index,
                Nic {
                    id: Some(crate::text::fmt_i64(index)),
                    name: Some(vmnet),
                    ty: Some(ty),
                    mac_address: Some(mac),
                },
            ),
        )
    }

    /// The single NIC in a creation or update answer: the record it
    /// denotes, with the adapter index as id; anything else fails with
    /// `UnexpectedResponse` carrying the answer.
    pub fn parse_nic(s: &str) -> (r: VmResult<Nic>)
        ensures
            match r {
                Ok(n) => json_wf(s@) && (nic_rec_of(json_doc(s@)) matches Some(q)
                    && nic_matches(n, q)),
                Err(e) => (!json_wf(s@) || nic_rec_of(json_doc(s@)) is None)
                    && err_is_unexpected(e, s@),
            },
    {
        let v = match json_parse(s) {
            Some(v) => v,
            None => {
                return Err(VmError::from(ErrorKind::UnexpectedResponse(s.to_owned())));
            },
        };
        match Self::nic_of_value(&v) {
            Some(t) => Ok(t.1),
            None => Err(VmError::from(ErrorKind::UnexpectedResponse(s.to_owned()))),
        }
    }

    /// The NIC list in a listing answer: the integer `num` member must
    /// equal the length of the `nics` array, whose every element must
    /// denote a NIC; the adapter index becomes each NIC's id. Anything
    /// else fails with `UnexpectedResponse` carrying the answer.
    pub fn parse_nics(s: &str) -> (r: VmResult<Vec<Nic>>)
        ensures
            rest_nic_list_spec(s@, r),
    {
        let v = match json_parse(s) {
            Some(v) => v,
            None => {
                return Err(VmError::from(ErrorKind::UnexpectedResponse(s.to_owned())));
            },
        };
        let num = match crate::json::get_i64_field(&v, "num") {
            Some(y) => y,
            None => {
                return Err(VmError::from(ErrorKind::UnexpectedResponse(s.to_owned())));
            },
        };
        let items = match crate::json::get_arr_field(&v, "nics") {
            Some(y) => y,
            None => {
                return Err(VmError::from(ErrorKind::UnexpectedResponse(s.to_owned())));
            },
        };
        let ghost elems = crate::json::arr_models(items@);
        if num < 0 || items.len() as u64 != num as u64 {
            return Err(VmError::from(ErrorKind::UnexpectedResponse(s.to_owned())));
        }
        let mut out: Vec<Nic> = Vec::new();
        let n: usize = items.len();
        let mut i: usize = 0;
        while i < n
            invariant
                n == items@.len(),
                n == elems.len(),
                elems == crate::json::arr_models(items@),
                json_wf(s@),
                jint_field(json_doc(s@), "num"@) matches Some(m) && m == n as int,
                jarr_field(json_doc(s@), "nics"@) == Some(elems),
                0 <= i <= n,
                out@.len() == i,
                forall|k: int| 0 <= k < i ==> nic_elem_ok(#[trigger] out@[k], elems[k]),
            decreases n - i,
        {
            match Self::nic_of_value(&items[i]) {
                Some(t) => {
                    proof {
                        assert(elems[i as int] == json_model(items@[i as int]));
                        assert(nic_elem_ok(t.1, elems[i as int]));
                    }
                    out.push(t.1);
                },
                None => {
                    proof {
                        assert(elems[i as int] == json_model(items@[i as int]));
                        assert(!all_nics_ok(elems)) by {
                            assert(nic_rec_of(elems[i as int]) is None);
                        }
                    }
                    return Err(VmError::from(ErrorKind::UnexpectedResponse(s.to_owned())));
                },
            }
            i = i + 1;
        }
        proof {
            assert forall|k: int|
                0 <= k < elems.len() implies nic_rec_of(#[trigger] elems[k]) is Some by {
                assert(nic_elem_ok(out@[k], elems[k]));
            }
            assert(all_nics_ok(elems));
        }
        Ok(out)
    }

    /// The adapter index a NIC answer reports must equal the index that
    /// was updated; an answer denoting another NIC fails with
    /// `UnexpectedResponse` carrying the reported index, and anything
    /// that denotes no NIC fails with `UnexpectedResponse` carrying the
    /// answer.
    pub fn check_nic_index(s: &str, index: i64) -> (r: VmResult<()>)
        ensures
            match r {
                Ok(_) => json_wf(s@) && (nic_rec_of(json_doc(s@)) matches Some(q) && q.0
                    == index as int),
                Err(e) => if json_wf(s@) && nic_rec_of(json_doc(s@)) is Some {
                    ({
                        let q = nic_rec_of(json_doc(s@))->0;
                        q.0 != index as int && err_is_unexpected(
                            e,
                            crate::text::int_dec_spec(q.0),
                        )
                    })
                } else {
                    err_is_unexpected(e, s@)
                },
            },
    {
        let v = match json_parse(s) {
            Some(v) => v,
            None => {
                return Err(VmError::from(ErrorKind::UnexpectedResponse(s.to_owned())));
            },
        };
        match Self::nic_of_value(&v) {
            Some(t) => {
                if t.0 == index {
                    Ok(())
                } else {
                    Err(VmError::from(ErrorKind::UnexpectedResponse(crate::text::fmt_i64(t.0))))
                }
            },
            None => Err(VmError::from(ErrorKind::UnexpectedResponse(s.to_owned()))),
        }
    }

    /// The shared-folder list in a listing answer: a JSON array whose
    /// every element must carry a string folder id, a string host path
    /// and integer flags, where only the read-write value means
    /// writable; anything else fails with `UnexpectedResponse` carrying
    /// the answer.
    pub fn parse_shared_folders(s: &str) -> (r: VmResult<Vec<SharedFolder>>)
        ensures
            rest_shf_list_spec(s@, r),
    {
        let v = match json_parse(s) {
            Some(v) => v,
            None => {
                return Err(VmError::from(ErrorKind::UnexpectedResponse(s.to_owned())));
            },
        };
        let items = match json_as_array(&v) {
            Some(x) => x,
            None => {
                return Err(VmError::from(ErrorKind::UnexpectedResponse(s.to_owned())));
            },
        };
        let ghost elems = crate::json::arr_models(items@);
        let mut out: Vec<SharedFolder> = Vec::new();
        let n: usize = items.len();
        let mut i: usize = 0;
        while i < n
            invariant
                n == items@.len(),
                n == elems.len(),
                elems == crate::json::arr_models(items@),
                json_wf(s@),
                json_doc(s@) == JVal::Arr(elems),
                0 <= i <= n,
                out@.len() == i,
                forall|k: int| 0 <= k < i ==> shf_elem_ok(#[trigger] out@[k], elems[k]),
            decreases n - i,
        {
            proof {
                assert(elems[i as int] == json_model(items@[i as int]));
            }
            let folder_id = match crate::json::get_str_field(&items[i], "folder_id") {
                Some(y) => y,
                None => {
                    proof {
                        assert(!all_shfs_ok(elems)) by {
                            assert(shf_rec_of(elems[i as int]) is None);
                        }
                    }
                    return Err(VmError::from(ErrorKind::UnexpectedResponse(s.to_owned())));
                },
            };
            let host_path = match crate::json::get_str_field(&items[i], "host_path") {
                Some(y) => y,
                None => {
                    proof {
                        assert(!all_shfs_ok(elems)) by {
                            assert(shf_rec_of(elems[i as int]) is None);
                        }
                    }
                    return Err(VmError::from(ErrorKind::UnexpectedResponse(s.to_owned())));
                },
            };
            let flags = match crate::json::get_i64_field(&items[i], "flags") {
                Some(y) => y,
                None => {
                    proof {
                        assert(!all_shfs_ok(elems)) by {
                            assert(shf_rec_of(elems[i as int]) is None);
                        }
                    }
                    return Err(VmError::from(ErrorKind::UnexpectedResponse(s.to_owned())));
                },
            };
            let sf = SharedFolder {
                id: Some(folder_id),
                name: None,
                guest_path: None,
                host_path: Some(host_path),
                is_readonly: flags != 4,
            };
            proof {
                assert(shf_rec_of(elems[i as int]) is Some);
                assert(shf_elem_ok(sf, elems[i as int]));
            }
            out.push(sf);
            i = i + 1;
        }
        proof {
            assert forall|k: int|
                0 <= k < elems.len() implies shf_rec_of(#[trigger] elems[k]) is Some by {
                assert(shf_elem_ok(out@[k], elems[k]));
            }
            assert(all_shfs_ok(elems));
        }
        Ok(out)
    }

    /// The version in the API description document: the text between the
    /// first description key's opening quote and the character before the
    /// comma closing the entry, exactly as `rest_version_spec` cuts it;
    /// any other shape fails with `UnexpectedResponse` carrying the
    /// document.
    pub fn parse_version(s: &str) -> (r: VmResult<String>)
        ensures
            match r {
                Ok(v) => rest_version_spec(s@) matches Some(q) && v@ == q,
                Err(e) => rest_version_spec(s@) is None && err_is_unexpected(e, s@),
            },
    {
        proof {
            reveal_strlit("description\"");
            reveal_strlit("\"");
        }
        let slen: usize = s.unicode_len();
        let p1 = match find_str(s, "description\"") {
            Some(p) => p,
            None => {
                return Err(VmError::from(ErrorKind::UnexpectedResponse(s.to_owned())));
            },
        };
        let rest1 = s.substring_char(p1 + 12, slen);
        proof {
            assert(rest1@ =~= s@.skip(p1 + 12));
        }
        let rest1len: usize = rest1.unicode_len();
        let p2 = match find_str(rest1, "\"") {
            Some(p) => p,
            None => {
                return Err(VmError::from(ErrorKind::UnexpectedResponse(s.to_owned())));
            },
        };
        let rest2 = rest1.substring_char(p2 + 1, rest1len);
        proof {
            assert(rest2@ =~= rest1@.skip(p2 + 1));
        }
        match crate::text::find_char(rest2, ',') {
            Some(m) => {
                proof {
                    crate::text::lemma_first_idx_is(rest2@, ',', m as int);
                }
                if m == 0 {
                    return Err(VmError::from(ErrorKind::UnexpectedResponse(s.to_owned())));
                }
                let out = rest2.substring_char(0, m - 1).to_owned();
                proof {
                    assert(out@ =~= rest2@.take(m - 1));
                }
                Ok(out)
            },
            None => {
                proof {
                    crate::text::lemma_first_idx_of(rest2@, ',');
                    if crate::text::first_idx_of(rest2@, ',') >= 0 {
                        assert(rest2@[crate::text::first_idx_of(rest2@, ',')] == ',');
                    }
                }
                Err(VmError::from(ErrorKind::UnexpectedResponse(s.to_owned())))
            },
        }
    }
}

/// A JSON object document carries a numeric code: under the lowercase
/// key when that key is there, else under the capitalized one.
pub open spec fn envelope_code_ok(d: JVal) -> bool {
    if d matches JVal::Obj(o) && o.dom().contains("code"@) {
        jint_field(d, "code"@) is Some
    } else {
        jint_field(d, "Code"@) is Some
    }
}

/// The message a JSON error envelope carries: under the lowercase key
/// when that key is there, else under the capitalized one.
pub open spec fn envelope_msg(d: JVal) -> Option<Seq<char>> {
    if d matches JVal::Obj(o) && o.dom().contains("message"@) {
        jstr_field(d, "message"@)
    } else {
        jstr_field(d, "Message"@)
    }
}

/// The VM value carries exactly the fields the listing element denotes:
/// each member present as a string becomes the field, anything else
/// leaves it empty.
pub open spec fn rest_vm_matches(vm: Vm, j: JVal) -> bool {
    &&& opt_str_matches(vm.id, jstr_field(j, "id"@))
    &&& opt_str_matches(vm.name, jstr_field(j, "name"@))
    &&& opt_str_matches(vm.path, jstr_field(j, "path"@))
}

/// The optional string `o` carries exactly the optional text `t`.
pub open spec fn opt_str_matches(o: Option<String>, t: Option<Seq<char>>) -> bool {
    match t {
        Some(q) => o matches Some(x) && x@ == q,
        None => o is None,
    }
}

/// The id of the first record in `vms` carrying `p` as its path, when
/// that record has one.
pub open spec fn vm_id_by_path_spec(vms: Seq<Vm>, p: Seq<char>) -> Option<Seq<char>>
    decreases vms.len(),
{
    if vms.len() == 0 {
        None
    } else if vms[0].path matches Some(q) && q@ == p {
        match vms[0].id {
            Some(i) => Some(i@),
            None => None,
        }
    } else {
        vm_id_by_path_spec(vms.skip(1), p)
    }
}

/// The display name the first display-name line of a configuration text
/// declares, with its closing quote dropped; nothing when no such line
/// occurs or the first one holds nothing after the opening quote.
pub open spec fn vmx_display_name_spec(lines: Seq<Seq<char>>) -> Option<Seq<char>>
    decreases lines.len(),
{
    if lines.len() == 0 {
        None
    } else if is_prefix_of("displayName = \""@, lines[0]) {
        let rest = lines[0].skip("displayName = \""@.len() as int);
        if rest.len() == 0 {
            None
        } else {
            Some(rest.take(rest.len() - 1))
        }
    } else {
        vmx_display_name_spec(lines.skip(1))
    }
}

/// The NIC type value `nt` spells `t` in the listing's vocabulary.
pub open spec fn nic_ty_matches(nt: NicType, t: Seq<char>) -> bool {
    ||| t == "bridged"@ && nt is Bridge
    ||| t == "nat"@ && nt is NAT
    ||| t == "hostOnly"@ && nt is HostOnly
    ||| t == "custom"@ && (nt matches NicType::Custom(x) && x@ == Seq::<char>::empty())
}

/// The record a NIC element denotes: its integer index, its type in the
/// listing's vocabulary, its network name and its hardware address.
pub open spec fn nic_rec_of(j: JVal) -> Option<(int, Seq<char>, Seq<char>, Seq<char>)> {
    match (
        jint_field(j, "index"@),
        jstr_field(j, "type"@),
        jstr_field(j, "vmnet"@),
        jstr_field(j, "macAddress"@),
    ) {
        (Some(ix), Some(ty), Some(vn), Some(mac)) => if ty == "bridged"@ || ty == "nat"@ || ty
            == "hostOnly"@ || ty == "custom"@ {
            Some((ix, ty, vn, mac))
        } else {
            None
        },
        _ => None,
    }
}

/// The NIC value `n` carries exactly the record `q`: the index spelled
/// in decimal as its id, the network name, the type, the address.
pub open spec fn nic_matches(n: Nic, q: (int, Seq<char>, Seq<char>, Seq<char>)) -> bool {
    &&& n.id matches Some(i) && i@ == crate::text::int_dec_spec(q.0)
    &&& n.name matches Some(v) && v@ == q.2
    &&& n.ty matches Some(ty) && nic_ty_matches(ty, q.1)
    &&& n.mac_address matches Some(m) && m@ == q.3
}

/// The NIC value carries exactly what the listing element denotes.
pub open spec fn nic_elem_ok(n: Nic, j: JVal) -> bool {
    nic_rec_of(j) matches Some(q) && nic_matches(n, q)
}

/// Every element of the listing denotes a NIC.
pub open spec fn all_nics_ok(elems: Seq<JVal>) -> bool {
    forall|k: int| 0 <= k < elems.len() ==> nic_rec_of(#[trigger] elems[k]) is Some
}

/// What the NIC-list parser returns for the answer `s`: the answer must
/// be well-formed JSON with an integer count equalling the length of its
/// NIC array, whose every element denotes a NIC, taken in order;
/// anything else is `UnexpectedResponse` carrying the answer.
pub open spec fn rest_nic_list_spec(s: Seq<char>, r: VmResult<Vec<Nic>>) -> bool {
    if json_wf(s) && (jint_field(json_doc(s), "num"@) matches Some(num) && (jarr_field(
        json_doc(s),
        "nics"@,
    ) matches Some(elems) && num == elems.len() && all_nics_ok(elems))) {
        let elems = jarr_field(json_doc(s), "nics"@)->0;
        r matches Ok(v) && v@.len() == elems.len() && forall|k: int|
            0 <= k < elems.len() ==> nic_elem_ok(#[trigger] v@[k], elems[k])
    } else {
        r matches Err(e) && err_is_unexpected(e, s)
    }
}

/// The record a shared-folder element denotes: its string folder id,
/// its string host path and its integer flags.
pub open spec fn shf_rec_of(j: JVal) -> Option<(Seq<char>, Seq<char>, int)> {
    match (jstr_field(j, "folder_id"@), jstr_field(j, "host_path"@), jint_field(j, "flags"@)) {
        (Some(a), Some(b), Some(c)) => Some((a, b, c)),
        _ => None,
    }
}

/// The shared-folder value `sf` carries exactly the record `q`; only the
/// read-write flags value means writable.
pub open spec fn shf_matches(sf: SharedFolder, q: (Seq<char>, Seq<char>, int)) -> bool {
    &&& sf.id matches Some(i) && i@ == q.0
    &&& sf.name is None
    &&& sf.guest_path is None
    &&& sf.host_path matches Some(h) && h@ == q.1
    &&& sf.is_readonly == (q.2 != 4)
}

/// The shared-folder value carries exactly what the listing element
/// denotes.
pub open spec fn shf_elem_ok(sf: SharedFolder, j: JVal) -> bool {
    shf_rec_of(j) matches Some(q) && shf_matches(sf, q)
}

/// Every element of the listing denotes a shared folder.
pub open spec fn all_shfs_ok(elems: Seq<JVal>) -> bool {
    forall|k: int| 0 <= k < elems.len() ==> shf_rec_of(#[trigger] elems[k]) is Some
}

/// What the shared-folder parser returns for the answer `s`: the answer
/// must be a well-formed JSON array whose every element denotes a shared
/// folder, taken in order; anything else is `UnexpectedResponse`
/// carrying the answer.
pub open spec fn rest_shf_list_spec(s: Seq<char>, r: VmResult<Vec<SharedFolder>>) -> bool {
    if json_wf(s) && (json_doc(s) matches JVal::Arr(elems) && all_shfs_ok(elems)) {
        let elems = json_doc(s)->Arr_0;
        r matches Ok(v) && v@.len() == elems.len() && forall|k: int|
            0 <= k < elems.len() ==> shf_elem_ok(#[trigger] v@[k], elems[k])
    } else {
        r matches Err(e) && err_is_unexpected(e, s)
    }
}

/// The version text the API description document carries: the text
/// after the first description key and its opening quote, cut before the
/// comma that closes the entry.
pub open spec fn rest_version_spec(s: Seq<char>) -> Option<Seq<char>> {
    let p1 = find_sub_idx(s, "description\""@);
    if p1 < 0 {
        None
    } else {
        let r1 = s.skip(p1 + 12);
        let p2 = find_sub_idx(r1, "\""@);
        if p2 < 0 {
            None
        } else {
            let r2 = r1.skip(p2 + 1);
            let m = first_idx_of(r2, ',');
            if m < 1 {
                None
            } else {
                Some(r2.take(m - 1))
            }
        }
    }
}

/// How a JSON string value spells one character: quote and backslash
/// are escaped, the three common control characters take their short
/// forms, every other control character below space its numeric form,
/// and everything else stands for itself.
pub open spec fn json_esc_char(c: char) -> Seq<char> {
    if c == '"' {
        seq!['\\', '"']
    } else if c == '\\' {
        seq!['\\', '\\']
    } else if c == '\n' {
        seq!['\\', 'n']
    } else if c == '\r' {
        seq!['\\', 'r']
    } else if c == '\t' {
        seq!['\\', 't']
    } else if (c as int) < 32 {
        let hi = crate::text::hex_char(c as int / 16);
        let lo = crate::text::hex_char(c as int % 16);
        seq!['\\', 'u', '0', '0', hi, lo]
    } else {
        seq![c]
    }
}

/// The JSON spelling of a whole string, character by character, without
/// the surrounding quotes.
pub open spec fn json_escape_spec(s: Seq<char>) -> Seq<char>
    decreases s.len(),
{
    if s.len() == 0 {
        Seq::empty()
    } else {
        json_escape_spec(s.drop_last()) + json_esc_char(s.last())
    }
}

/// Escapes a string for embedding in a JSON document, so that request
/// bodies frame every interpolated value safely.
pub fn json_escape(s: &str) -> (r: String)
    ensures
        r@ == json_escape_spec(s@),
{
    proof {
        reveal_strlit("\\\"");
        reveal_strlit("\\\\");
        reveal_strlit("\\n");
        reveal_strlit("\\r");
        reveal_strlit("\\t");
    }
    let slen: usize = s.unicode_len();
    let mut r = String::new();
    let mut i: usize = 0;
    proof {
        assert(s@.take(0) =~= Seq::<char>::empty());
        assert(r@ =~= json_escape_spec(s@.take(0)));
    }
    while i < slen
        invariant
            slen == s@.len(),
            0 <= i <= slen,
            r@ == json_escape_spec(s@.take(i as int)),
        decreases slen - i,
    {
        proof {
            reveal_strlit("\\\"");
            reveal_strlit("\\\\");
            reveal_strlit("\\n");
            reveal_strlit("\\r");
            reveal_strlit("\\t");
            assert(s@.take(i + 1).drop_last() =~= s@.take(i as int));
            assert(s@.take(i + 1).last() == s@[i as int]);
        }
        let c = s.get_char(i);
        if c == '"' {
            r.append("\\\"");
        } else if c == '\\' {
            r.append("\\\\");
        } else if c == '\n' {
            r.append("\\n");
        } else if c == '\r' {
            r.append("\\r");
        } else if c == '\t' {
            r.append("\\t");
        } else if (c as u32) < 32 {
            let v = c as u32;
            r.append("\\u00");
            let hi = crate::text::hex_digit_str((v / 16) as u8);
            r.append(hi);
            let lo = crate::text::hex_digit_str((v % 16) as u8);
            r.append(lo);
            proof {
                reveal_strlit("\\u00");
            }
        } else {
            let piece = s.substring_char(i, i + 1);
            proof {
                assert(piece@ =~= seq![s@[i as int]]);
            }
            r.append(piece);
        }
        proof {
            assert(r@ =~= json_escape_spec(s@.take(i + 1)));
        }
        i = i + 1;
    }
    proof {
        assert(s@.take(slen as int) =~= s@);
    }
    r
}

/// The JSON request body that asks for a NIC of the given type: the
/// type's API spelling, and for a custom type the network name, escaped.
pub open spec fn nic_body_spec(ty: NicType) -> Seq<char> {
    match ty {
        NicType::NAT => "{\"type\":\"nat\",\"vmnet\":null}"@,
        NicType::Bridge => "{\"type\":\"bridged\",\"vmnet\":null}"@,
        NicType::HostOnly => "{\"type\":\"hostonly\",\"vmnet\":null}"@,
        NicType::Custom(x) => "{\"type\":\"custom\",\"vmnet\":\""@ + json_escape_spec(x@)
            + "\"}"@,
    }
}

impl VmRest {
    /// The JSON request body that creates or updates a NIC of type `ty`.
    pub fn nic_request_body(ty: &NicType) -> (r: String)
        ensures
            r@ == nic_body_spec(*ty),
    {
        match ty {
            NicType::NAT => String::from_str("{\"type\":\"nat\",\"vmnet\":null}"),
            NicType::Bridge => String::from_str("{\"type\":\"bridged\",\"vmnet\":null}"),
            NicType::HostOnly => String::from_str("{\"type\":\"hostonly\",\"vmnet\":null}"),
            NicType::Custom(x) => {
                let mut r = String::from_str("{\"type\":\"custom\",\"vmnet\":\"");
                let esc = json_escape(x.as_str());
                r.append(esc.as_str());
                r.append("\"}");
                proof {
                    assert(r@ =~= nic_body_spec(NicType::Custom(*x)));
                }
                r
            },
        }
    }

    /// The JSON request body that mounts the given shared folders: one
    /// object per folder with its id, host path and writability flags,
    /// every value escaped, exactly as `shf_items_from` spells it. A
    /// folder without an id or host path cannot be sent and is rejected
    /// with `InvalidParameter`.
    #[verifier::rlimit(100)]
    pub fn shared_folders_body(shfs: &Vec<SharedFolder>) -> (r: VmResult<String>)
        ensures
            match r {
                Ok(t) => shf_fields_ok(shfs@) && t@ == "["@ + shf_items_from(shfs@, 0)
                    + "]"@,
                Err(e) => !shf_fields_ok(shfs@) && err_is_invalid_parameter(
                    e,
                    "shared folder is missing a field"@,
                ),
            },
    {
        let mut out = String::from_str("[");
        let n: usize = shfs.len();
        let mut i: usize = 0;
        proof {
            assert(out@ + shf_items_from(shfs@, 0) =~= "["@ + shf_items_from(shfs@, 0));
        }
        while i < n
            invariant
                n == shfs@.len(),
                0 <= i <= n,
                forall|k: int|
                    0 <= k < i ==> (#[trigger] shfs@[k]).id is Some && shfs@[k].host_path
                        is Some,
                out@ + shf_items_from(shfs@, i as int) == "["@ + shf_items_from(shfs@, 0),
            decreases n - i,
        {
            let id = match &shfs[i].id {
                Some(x) => x,
                None => {
                    proof {
                        assert(!shf_fields_ok(shfs@)) by {
                            assert(!((shfs@[i as int]).id is Some && shfs@[i as int].host_path
                                is Some));
                        }
                    }
                    return Err(VmError::from(ErrorKind::InvalidParameter(
                        String::from_str("shared folder is missing a field"),
                    )));
                },
            };
            let host_path = match &shfs[i].host_path {
                Some(x) => x,
                None => {
                    proof {
                        assert(!shf_fields_ok(shfs@)) by {
                            assert(!((shfs@[i as int]).id is Some && shfs@[i as int].host_path
                                is Some));
                        }
                    }
                    return Err(VmError::from(ErrorKind::InvalidParameter(
                        String::from_str("shared folder is missing a field"),
                    )));
                },
            };
            if i > 0 {
                out.append(",");
            }
            out.append("{\"folder_id\":\"");
            let e1 = json_escape(id.as_str());
            out.append(e1.as_str());
            out.append("\",\"host_path\":\"");
            let e2 = json_escape(host_path.as_str());
            out.append(e2.as_str());
            out.append("\",\"flags\":");
            if shfs[i].is_readonly {
                out.append("0");
            } else {
                out.append("4");
            }
            out.append("}");
            proof {
                reveal_strlit(",");
                assert(out@ + shf_items_from(shfs@, i + 1) =~= "["@ + shf_items_from(
                    shfs@,
                    0,
                ));
            }
            i = i + 1;
        }
        out.append("]");
        proof {
            assert(shf_items_from(shfs@, n as int) =~= Seq::<char>::empty());
            assert(out@ =~= "["@ + shf_items_from(shfs@, 0) + "]"@);
        }
        Ok(out)
    }
}

/// Every folder in `sfs` carries the id and host path the request body
/// needs.
pub open spec fn shf_fields_ok(sfs: Seq<SharedFolder>) -> bool {
    forall|k: int|
        0 <= k < sfs.len() ==> (#[trigger] sfs[k]).id is Some && sfs[k].host_path is Some
}

/// One folder of the mount request body: its id and host path escaped,
/// and the writability flags, read-only spelled as zero.
pub open spec fn shf_item_text(sf: SharedFolder) -> Seq<char> {
    "{\"folder_id\":\""@ + json_escape_spec(sf.id->0@) + "\",\"host_path\":\""@
        + json_escape_spec(sf.host_path->0@) + "\",\"flags\":"@ + (if sf.is_readonly {
        "0"@
    } else {
        "4"@
    }) + "}"@
}

/// The folders of the mount request body from position `i` on, comma
/// separated.
pub open spec fn shf_items_from(sfs: Seq<SharedFolder>, i: int) -> Seq<char>
    decreases sfs.len() - i,
{
    if i < 0 || i >= sfs.len() {
        Seq::empty()
    } else {
        (if i == 0 {
            Seq::empty()
        } else {
            ","@
        }) + shf_item_text(sfs[i]) + shf_items_from(sfs, i + 1)
    }
}

} // verus!