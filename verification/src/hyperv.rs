//! The script-host backend: injection-safe argument escaping, command
//! construction for each power/snapshot/guest operation, the error
//! translator for the host's English diagnostics, and the mapping from the
//! host's numeric VM states onto the shared power-state lattice.
use crate::json::{
    json_as_array, json_doc, json_model, json_parse, json_wf, jint_field, jstr_field, JVal,
};
use crate::text::{
    contains_seq, contains_str, find_str, find_sub_idx, is_prefix_of, starts_with_str,
    strip_prefix_str, trim_spec, trim_str,
};
use crate::types::{
    err_is, err_is_invalid_parameter, err_is_invalid_state, err_is_unexpected, err_is_unknown,
    ErrorKind, Repr, Snapshot, Vm, VmError, VmPowerState, VmResult,
};
use vstd::prelude::*;
use vstd::string::*;

verus! {

/// How the single-quote rule spells one character: a quote is doubled,
/// everything else stands for itself.
pub open spec fn esc_char_single(c: char) -> Seq<char> {
    if c == '\'' {
        seq!['\'', '\'']
    } else {
        seq![c]
    }
}

/// The single-quote spelling of a whole string, character by character.
pub open spec fn escape_single_body(s: Seq<char>) -> Seq<char>
    decreases s.len(),
{
    if s.len() == 0 {
        Seq::empty()
    } else {
        escape_single_body(s.drop_last()) + esc_char_single(s.last())
    }
}

/// What `escape_pwsh` returns: the string doubled-quoted character by
/// character, surrounded by single quotes.
pub open spec fn escape_pwsh_spec(s: Seq<char>) -> Seq<char> {
    seq!['\''] + escape_single_body(s) + seq!['\'']
}

proof fn lemma_escape_single_cons(s: Seq<char>)
    requires
        s.len() > 0,
    ensures
        escape_single_body(s) == esc_char_single(s[0]) + escape_single_body(s.skip(1)),
    decreases s.len(),
{
    if s.len() == 1 {
        assert(s.drop_last() =~= Seq::<char>::empty());
        assert(s.skip(1) =~= Seq::<char>::empty());
        assert(escape_single_body(s) =~= esc_char_single(s[0]) + escape_single_body(s.skip(1)));
    } else {
        lemma_escape_single_cons(s.drop_last());
        assert(s.drop_last()[0] == s[0]);
        assert(s.drop_last().skip(1) =~= s.skip(1).drop_last());
        assert(s.skip(1).last() == s.last());
        assert(escape_single_body(s) == escape_single_body(s.drop_last()) + esc_char_single(
            s.last(),
        ));
        assert(escape_single_body(s.skip(1)) == escape_single_body(s.skip(1).drop_last())
            + esc_char_single(s.skip(1).last()));
        assert(escape_single_body(s) =~= esc_char_single(s[0]) + escape_single_body(s.skip(1)));
    }
}

/// Escapes an argument for the script host: surrounds it with single
/// quotes and doubles every single quote inside.
pub fn escape_pwsh(s: &str) -> (r: String)
    ensures
        r@ == escape_pwsh_spec(s@),
{
    proof {
        reveal_strlit("'");
    }
    let slen: usize = s.unicode_len();
    let mut r = String::from_str("'");
    let mut i: usize = 0;
    proof {
        assert(s@.take(0) =~= Seq::<char>::empty());
        assert(r@ =~= seq!['\''] + escape_single_body(s@.take(0)));
    }
    while i < slen
        invariant
            slen == s@.len(),
            0 <= i <= slen,
            r@ == seq!['\''] + escape_single_body(s@.take(i as int)),
        decreases slen - i,
    {
        proof {
            reveal_strlit("'");
            assert(s@.take(i + 1).drop_last() =~= s@.take(i as int));
            assert(s@.take(i + 1).last() == s@[i as int]);
        }
        let c = s.get_char(i);
        let piece = s.substring_char(i, i + 1);
        proof {
            assert(piece@ =~= seq![s@[i as int]]);
        }
        r.append(piece);
        if c == '\'' {
            r.append("'");
        }
        proof {
            assert(r@ =~= seq!['\''] + escape_single_body(s@.take(i + 1)));
        }
        i = i + 1;
    }
    proof {
        reveal_strlit("'");
        assert(s@.take(slen as int) =~= s@);
    }
    r.append("'");
    proof {
        assert(r@ =~= escape_pwsh_spec(s@));
    }
    r
}

/// How the double-quote rule spells one character: a double quote or a
/// backtick is preceded by a backtick, everything else stands for itself.
pub open spec fn esc_char_double(c: char) -> Seq<char> {
    if c == '"' || c == '`' {
        seq!['`', c]
    } else {
        seq![c]
    }
}

/// The double-quote spelling of a whole string, character by character.
pub open spec fn escape_double_body(s: Seq<char>) -> Seq<char>
    decreases s.len(),
{
    if s.len() == 0 {
        Seq::empty()
    } else {
        escape_double_body(s.drop_last()) + esc_char_double(s.last())
    }
}

/// What `pwsh_escape` returns: the string backtick-escaped character by
/// character, surrounded by double quotes.
pub open spec fn pwsh_escape_spec(s: Seq<char>) -> Seq<char> {
    seq!['"'] + escape_double_body(s) + seq!['"']
}

proof fn lemma_escape_double_cons(s: Seq<char>)
    requires
        s.len() > 0,
    ensures
        escape_double_body(s) == esc_char_double(s[0]) + escape_double_body(s.skip(1)),
    decreases s.len(),
{
    if s.len() == 1 {
        assert(s.drop_last() =~= Seq::<char>::empty());
        assert(s.skip(1) =~= Seq::<char>::empty());
        assert(escape_double_body(s) =~= esc_char_double(s[0]) + escape_double_body(s.skip(1)));
    } else {
        lemma_escape_double_cons(s.drop_last());
        assert(s.drop_last()[0] == s[0]);
        assert(s.drop_last().skip(1) =~= s.skip(1).drop_last());
        assert(s.skip(1).last() == s.last());
        assert(escape_double_body(s) == escape_double_body(s.drop_last()) + esc_char_double(
            s.last(),
        ));
        assert(escape_double_body(s.skip(1)) == escape_double_body(s.skip(1).drop_last())
            + esc_char_double(s.skip(1).last()));
        assert(escape_double_body(s) =~= esc_char_double(s[0]) + escape_double_body(s.skip(1)));
    }
}

/// Escapes an inline script fragment for the script host: surrounds it
/// with double quotes and puts a backtick before every double quote and
/// backtick inside.
pub fn pwsh_escape(s: &str) -> (r: String)
    ensures
        r@ == pwsh_escape_spec(s@),
{
    proof {
        reveal_strlit("\"");
        reveal_strlit("`");
    }
    let slen: usize = s.unicode_len();
    let mut r = String::from_str("\"");
    let mut i: usize = 0;
    proof {
        assert(s@.take(0) =~= Seq::<char>::empty());
        assert(r@ =~= seq!['"'] + escape_double_body(s@.take(0)));
    }
    while i < slen
        invariant
            slen == s@.len(),
            0 <= i <= slen,
            r@ == seq!['"'] + escape_double_body(s@.take(i as int)),
        decreases slen - i,
    {
        proof {
            reveal_strlit("`");
            assert(s@.take(i + 1).drop_last() =~= s@.take(i as int));
            assert(s@.take(i + 1).last() == s@[i as int]);
        }
        let c = s.get_char(i);
        let piece = s.substring_char(i, i + 1);
        proof {
            assert(piece@ =~= seq![s@[i as int]]);
        }
        if c == '"' || c == '`' {
            r.append("`");
        }
        r.append(piece);
        proof {
            assert(r@ =~= seq!['"'] + escape_double_body(s@.take(i + 1)));
        }
        i = i + 1;
    }
    proof {
        reveal_strlit("\"");
        assert(s@.take(slen as int) =~= s@);
    }
    r.append("\"");
    proof {
        assert(r@ =~= pwsh_escape_spec(s@));
    }
    r
}

/// How the interpreter reads text between single quotes: a doubled quote
/// denotes one quote, a lone quote cannot occur, everything else stands
/// for itself.
pub open spec fn unquote_single_body(t: Seq<char>) -> Option<Seq<char>>
    decreases t.len(),
{
    if t.len() == 0 {
        Some(Seq::empty())
    } else if t[0] == '\'' {
        if t.len() >= 2 && t[1] == '\'' {
            match unquote_single_body(t.skip(2)) {
                Some(r) => Some(seq!['\''] + r),
                None => None,
            }
        } else {
            None
        }
    } else {
        match unquote_single_body(t.skip(1)) {
            Some(r) => Some(seq![t[0]] + r),
            None => None,
        }
    }
}

/// How the interpreter splits a single-quoted argument back into a value:
/// the outer quotes are removed and the text between them is read by the
/// single-quote rule.
pub open spec fn unquote_single(t: Seq<char>) -> Option<Seq<char>> {
    if t.len() >= 2 && t[0] == '\'' && t[t.len() - 1] == '\'' {
        unquote_single_body(t.subrange(1, t.len() - 1))
    } else {
        None
    }
}

proof fn lemma_unquote_single_body(s: Seq<char>)
    ensures
        unquote_single_body(escape_single_body(s)) == Some(s),
    decreases s.len(),
{
    if s.len() == 0 {
    } else {
        lemma_escape_single_cons(s);
        lemma_unquote_single_body(s.skip(1));
        let t = escape_single_body(s);
        if s[0] == '\'' {
            assert(t =~= seq!['\'', '\''] + escape_single_body(s.skip(1)));
            assert(t[0] == '\'' && t.len() >= 2 && t[1] == '\'');
            assert(t.skip(2) =~= escape_single_body(s.skip(1)));
            assert(unquote_single_body(t) == Some(seq!['\''] + s.skip(1)));
            assert(seq!['\''] + s.skip(1) =~= s);
        } else {
            assert(t =~= seq![s[0]] + escape_single_body(s.skip(1)));
            assert(t[0] == s[0]);
            assert(t.skip(1) =~= escape_single_body(s.skip(1)));
            assert(unquote_single_body(t) == Some(seq![s[0]] + s.skip(1)));
            assert(seq![s[0]] + s.skip(1) =~= s);
        }
    }
}

/// Law: single-quote escaping round-trips. For any string, what
/// `escape_pwsh` produces is read back by the interpreter's single-quote
/// rule as exactly the original string.
pub proof fn lemma_escape_pwsh_round_trip(s: Seq<char>)
    ensures
        unquote_single(escape_pwsh_spec(s)) == Some(s),
{
    let t = escape_pwsh_spec(s);
    assert(t[0] == '\'');
    assert(t[t.len() - 1] == '\'');
    assert(t.subrange(1, t.len() - 1) =~= escape_single_body(s));
    lemma_unquote_single_body(s);
}

/// How the interpreter reads text between double quotes: a backtick makes
/// the next character stand for itself, an unescaped double quote cannot
/// occur, everything else stands for itself.
pub open spec fn unquote_double_body(t: Seq<char>) -> Option<Seq<char>>
    decreases t.len(),
{
    if t.len() == 0 {
        Some(Seq::empty())
    } else if t[0] == '`' {
        if t.len() >= 2 {
            match unquote_double_body(t.skip(2)) {
                Some(r) => Some(seq![t[1]] + r),
                None => None,
            }
        } else {
            None
        }
    } else if t[0] == '"' {
        None
    } else {
        match unquote_double_body(t.skip(1)) {
            Some(r) => Some(seq![t[0]] + r),
            None => None,
        }
    }
}

/// How the interpreter splits a double-quoted fragment back into a value:
/// the outer quotes are removed and the text between them is read by the
/// backtick rule.
pub open spec fn unquote_double(t: Seq<char>) -> Option<Seq<char>> {
    if t.len() >= 2 && t[0] == '"' && t[t.len() - 1] == '"' {
        unquote_double_body(t.subrange(1, t.len() - 1))
    } else {
        None
    }
}

proof fn lemma_unquote_double_body(s: Seq<char>)
    ensures
        unquote_double_body(escape_double_body(s)) == Some(s),
    decreases s.len(),
{
    if s.len() == 0 {
    } else {
        lemma_escape_double_cons(s);
        lemma_unquote_double_body(s.skip(1));
        let t = escape_double_body(s);
        if s[0] == '"' || s[0] == '`' {
            assert(t =~= seq!['`', s[0]] + escape_double_body(s.skip(1)));
            assert(t[0] == '`' && t.len() >= 2 && t[1] == s[0]);
            assert(t.skip(2) =~= escape_double_body(s.skip(1)));
            assert(unquote_double_body(t) == Some(seq![s[0]] + s.skip(1)));
            assert(seq![s[0]] + s.skip(1) =~= s);
        } else {
            assert(t =~= seq![s[0]] + escape_double_body(s.skip(1)));
            assert(t[0] == s[0]);
            assert(t.skip(1) =~= escape_double_body(s.skip(1)));
            assert(unquote_double_body(t) == Some(seq![s[0]] + s.skip(1)));
            assert(seq![s[0]] + s.skip(1) =~= s);
        }
    }
}

/// Law: double-quote escaping round-trips. For any string, what
/// `pwsh_escape` produces is read back by the interpreter's double-quote
/// rule as exactly the original string.
pub proof fn lemma_pwsh_escape_round_trip(s: Seq<char>)
    ensures
        unquote_double(pwsh_escape_spec(s)) == Some(s),
{
    let t = pwsh_escape_spec(s);
    assert(t[0] == '"');
    assert(t[t.len() - 1] == '"');
    assert(t.subrange(1, t.len() - 1) =~= escape_double_body(s));
    lemma_unquote_double_body(s);
}

/// The script host's numeric VM states, in the order the host numbers
/// them, starting at one.
#[derive(Debug, Clone, Copy, PartialEq, Eq, Structural)]
pub enum PowerShellVmState {
    Other,
    Running,
    Off,
    Stopping,
    Saved,
    Paused,
    Starting,
    Reset,
    Saving,
    Pausing,
    Resuming,
    FastSaved,
    FastSaving,
    ForceShutdown,
    ForceReboot,
    Hibernated,
    ComponentServicing,
    RunningCritical,
    OffCritical,
    StoppingCritical,
    SavedCritical,
    PausedCritical,
    StartingCritical,
    ResetCritical,
    SavingCritical,
    PausingCritical,
    ResumingCritical,
    FastSavedCritical,
    FastSavingCritical,
}

impl PowerShellVmState {
    /// The number the script host uses for this state.
    pub fn as_u8(&self) -> (r: u8)
        ensures
            r == ps_state_number(*self),
    {
        match self {
            PowerShellVmState::Other => 1,
            PowerShellVmState::Running => 2,
            PowerShellVmState::Off => 3,
            PowerShellVmState::Stopping => 4,
            PowerShellVmState::Saved => 5,
            PowerShellVmState::Paused => 6,
            PowerShellVmState::Starting => 7,
            PowerShellVmState::Reset => 8,
            PowerShellVmState::Saving => 9,
            PowerShellVmState::Pausing => 10,
            PowerShellVmState::Resuming => 11,
            PowerShellVmState::FastSaved => 12,
            PowerShellVmState::FastSaving => 13,
            PowerShellVmState::ForceShutdown => 14,
            PowerShellVmState::ForceReboot => 15,
            PowerShellVmState::Hibernated => 16,
            PowerShellVmState::ComponentServicing => 17,
            PowerShellVmState::RunningCritical => 18,
            PowerShellVmState::OffCritical => 19,
            PowerShellVmState::StoppingCritical => 20,
            PowerShellVmState::SavedCritical => 21,
            PowerShellVmState::PausedCritical => 22,
            PowerShellVmState::StartingCritical => 23,
            PowerShellVmState::ResetCritical => 24,
            PowerShellVmState::SavingCritical => 25,
            PowerShellVmState::PausingCritical => 26,
            PowerShellVmState::ResumingCritical => 27,
            PowerShellVmState::FastSavedCritical => 28,
            PowerShellVmState::FastSavingCritical => 29,
        }
    }
}

/// The number the script host uses for each of its VM states.
pub open spec fn ps_state_number(st: PowerShellVmState) -> int {
    match st {
        PowerShellVmState::Other => 1,
        PowerShellVmState::Running => 2,
        PowerShellVmState::Off => 3,
        PowerShellVmState::Stopping => 4,
        PowerShellVmState::Saved => 5,
        PowerShellVmState::Paused => 6,
        PowerShellVmState::Starting => 7,
        PowerShellVmState::Reset => 8,
        PowerShellVmState::Saving => 9,
        PowerShellVmState::Pausing => 10,
        PowerShellVmState::Resuming => 11,
        PowerShellVmState::FastSaved => 12,
        PowerShellVmState::FastSaving => 13,
        PowerShellVmState::ForceShutdown => 14,
        PowerShellVmState::ForceReboot => 15,
        PowerShellVmState::Hibernated => 16,
        PowerShellVmState::ComponentServicing => 17,
        PowerShellVmState::RunningCritical => 18,
        PowerShellVmState::OffCritical => 19,
        PowerShellVmState::StoppingCritical => 20,
        PowerShellVmState::SavedCritical => 21,
        PowerShellVmState::PausedCritical => 22,
        PowerShellVmState::StartingCritical => 23,
        PowerShellVmState::ResetCritical => 24,
        PowerShellVmState::SavingCritical => 25,
        PowerShellVmState::PausingCritical => 26,
        PowerShellVmState::ResumingCritical => 27,
        PowerShellVmState::FastSavedCritical => 28,
        PowerShellVmState::FastSavingCritical => 29,
    }
}

/// The shared power state a numeric host state maps to: running and off
/// map to themselves, saved states count as suspended, paused as paused,
/// and every transitional or unknown number is the unknown observation.
pub open spec fn power_state_of_number(n: int) -> VmPowerState {
    if n == 2 || n == 18 {
        VmPowerState::Running
    } else if n == 3 || n == 19 {
        VmPowerState::Stopped
    } else if n == 5 || n == 21 || n == 12 {
        VmPowerState::Suspended
    } else if n == 6 || n == 22 {
        VmPowerState::Paused
    } else {
        VmPowerState::Unknown
    }
}

/// Maps the script host's numeric VM state onto the shared power-state
/// lattice.
pub fn power_state_from_number(n: i64) -> (r: VmPowerState)
    ensures
        r == power_state_of_number(n as int),
{
    if n == 2 || n == 18 {
        VmPowerState::Running
    } else if n == 3 || n == 19 {
        VmPowerState::Stopped
    } else if n == 5 || n == 21 || n == 12 {
        VmPowerState::Suspended
    } else if n == 6 || n == 22 {
        VmPowerState::Paused
    } else {
        VmPowerState::Unknown
    }
}

/// The error one of the script host's diagnostics classifies to: its
/// message vocabulary, first match wins, unmatched text kept verbatim.
pub open spec fn hyperv_error_spec(s: Seq<char>, e: VmError) -> bool {
    if is_prefix_of("You do not have the required permission to complete"@, s) {
        err_is(e, ErrorKind::PrivilegesRequired)
    } else if is_prefix_of("Hyper-V was unable to find a virtual machine with name"@, s) {
        err_is(e, ErrorKind::VmNotFound)
    } else if is_prefix_of(
        "The operation cannot be performed while the virtual machine is in its current state."@,
        s,
    ) {
        err_is_invalid_state(e, VmPowerState::Unknown)
    } else if is_prefix_of("Unable to find a snapshot matching the given criteria."@, s) {
        err_is(e, ErrorKind::SnapshotNotFound)
    } else if is_prefix_of("Access to the path"@, s) {
        let rest = s.skip("Access to the path"@.len() as int);
        if contains_seq(rest, " is denied."@) {
            err_is(e, ErrorKind::PermissionDenied)
        } else {
            err_is_unexpected(e, rest)
        }
    } else if is_prefix_of("Cannot validate argument on parameter '"@, s) {
        let rest = s.skip("Cannot validate argument on parameter '"@.len() as int);
        let p = find_sub_idx(rest, "'."@);
        if p >= 0 {
            err_is_invalid_parameter(e, rest.take(p))
        } else {
            err_is_unknown(e, "Unknown error: "@ + s)
        }
    } else {
        err_is_unknown(e, "Unknown error: "@ + s)
    }
}

/// Law: error translation is deterministic and total. Every diagnostic
/// text classifies, and any two errors classified from the same text are
/// the same error.
pub proof fn lemma_hyperv_classification_unique(s: Seq<char>, e1: VmError, e2: VmError)
    requires
        hyperv_error_spec(s, e1),
        hyperv_error_spec(s, e2),
    ensures
        crate::types::vm_error_eq(e1, e2),
{
}

fn unknown_error(s: &str) -> (r: VmError)
    ensures
        err_is_unknown(r, "Unknown error: "@ + s@),
{
    let mut t = String::from_str("Unknown error: ");
    t.append(s);
    VmError::from(Repr::Unknown(t))
}

/// The id and name a listing element denotes: its string id and name
/// members, when both are there.
pub open spec fn hv_vm_of(j: JVal) -> Option<(Seq<char>, Seq<char>)> {
    match (jstr_field(j, "VMId"@), jstr_field(j, "Name"@)) {
        (Some(a), Some(b)) => Some((a, b)),
        _ => None,
    }
}

/// The VM value `vm` carries exactly the record `t`.
pub open spec fn hv_vm_matches(vm: Vm, t: (Seq<char>, Seq<char>)) -> bool {
    &&& vm.id matches Some(i) && i@ == t.0
    &&& vm.name matches Some(n) && n@ == t.1
    &&& vm.path is None
}

/// The VM value carries exactly what the listing element denotes.
pub open spec fn hv_vm_elem_ok(vm: Vm, j: JVal) -> bool {
    hv_vm_of(j) matches Some(t) && hv_vm_matches(vm, t)
}

/// Every element of the listing denotes a VM.
pub open spec fn hv_all_vms(elems: Seq<JVal>) -> bool {
    forall|k: int| 0 <= k < elems.len() ==> hv_vm_of(#[trigger] elems[k]) is Some
}

/// What the VM-list parser returns for the answer `s`: an empty answer
/// is the empty list; otherwise the answer must be well-formed JSON and
/// either an array whose every element denotes a VM, taken in order, or
/// a single element denoting one; anything else is `UnexpectedResponse`
/// carrying the answer.
pub open spec fn hv_vm_list_spec(s: Seq<char>, r: VmResult<Vec<Vm>>) -> bool {
    if s.len() == 0 {
        r matches Ok(v) && v@.len() == 0
    } else if !json_wf(s) {
        r matches Err(e) && err_is_unexpected(e, s)
    } else {
        match json_doc(s) {
            JVal::Arr(elems) => if hv_all_vms(elems) {
                r matches Ok(v) && v@.len() == elems.len() && forall|k: int|
                    0 <= k < elems.len() ==> hv_vm_elem_ok(#[trigger] v@[k], elems[k])
            } else {
                r matches Err(e) && err_is_unexpected(e, s)
            },
            d => match hv_vm_of(d) {
                Some(t) => r matches Ok(v) && v@.len() == 1 && hv_vm_matches(v@[0], t),
                None => r matches Err(e) && err_is_unexpected(e, s),
            },
        }
    }
}

/// The id, name and notes a checkpoint element denotes, when all three
/// string members are there.
pub open spec fn hv_snapshot_of(j: JVal) -> Option<(Seq<char>, Seq<char>, Seq<char>)> {
    match (jstr_field(j, "Id"@), jstr_field(j, "Name"@), jstr_field(j, "Notes"@)) {
        (Some(a), Some(b), Some(c)) => Some((a, b, c)),
        _ => None,
    }
}

/// The snapshot value `sn` carries exactly the record `t`.
pub open spec fn hv_snapshot_matches(sn: Snapshot, t: (Seq<char>, Seq<char>, Seq<char>)) -> bool {
    &&& sn.id matches Some(i) && i@ == t.0
    &&& sn.name matches Some(n) && n@ == t.1
    &&& sn.detail matches Some(d) && d@ == t.2
}

/// The snapshot value carries exactly what the listing element denotes.
pub open spec fn hv_snapshot_elem_ok(sn: Snapshot, j: JVal) -> bool {
    hv_snapshot_of(j) matches Some(t) && hv_snapshot_matches(sn, t)
}

/// Every element of the listing denotes a checkpoint.
pub open spec fn hv_all_snapshots(elems: Seq<JVal>) -> bool {
    forall|k: int| 0 <= k < elems.len() ==> hv_snapshot_of(#[trigger] elems[k]) is Some
}

/// What the checkpoint-list parser returns for the answer `s`, shaped as
/// `hv_vm_list_spec` is.
pub open spec fn hv_snapshot_list_spec(s: Seq<char>, r: VmResult<Vec<Snapshot>>) -> bool {
    if s.len() == 0 {
        r matches Ok(v) && v@.len() == 0
    } else if !json_wf(s) {
        r matches Err(e) && err_is_unexpected(e, s)
    } else {
        match json_doc(s) {
            JVal::Arr(elems) => if hv_all_snapshots(elems) {
                r matches Ok(v) && v@.len() == elems.len() && forall|k: int|
                    0 <= k < elems.len() ==> hv_snapshot_elem_ok(#[trigger] v@[k], elems[k])
            } else {
                r matches Err(e) && err_is_unexpected(e, s)
            },
            d => match hv_snapshot_of(d) {
                Some(t) => r matches Ok(v) && v@.len() == 1 && hv_snapshot_matches(v@[0], t),
                None => r matches Err(e) && err_is_unexpected(e, s),
            },
        }
    }
}

/// The script-host backend's configuration: where the interpreter lives,
/// the selected VM, and guest credentials — the VM name and credentials
/// are escaped when they are set, so every command they appear in is
/// injection-safe.
#[derive(Debug, Clone)]
pub struct HyperVCmd {
    pub executable_path: String,
    pub vm_name: Option<String>,
    pub guest_username: Option<String>,
    pub guest_password: Option<String>,
}

impl Default for HyperVCmd {
    /// The default configuration: the bare interpreter name, no VM
    /// selected, no credentials.
    fn default() -> (r: Self)
        ensures
            r.executable_path@ == "powershell"@,
            r.vm_name is None,
            r.guest_username is None,
            r.guest_password is None,
    {
        HyperVCmd {
            executable_path: String::from_str("powershell"),
            vm_name: None,
            guest_username: None,
            guest_password: None,
        }
    }
}

impl HyperVCmd {
    /// A fresh configuration with nothing selected.
    pub fn new() -> (r: Self)
        ensures
            r.executable_path@ == "powershell"@,
            r.vm_name is None,
            r.guest_username is None,
            r.guest_password is None,
    {
        Self::default()
    }

    /// Sets the path to the interpreter.
    pub fn executable_path(&mut self, executable_path: String)
        ensures
            *final(self) == (HyperVCmd { executable_path, ..*old(self) }),
    {
        self.executable_path = executable_path;
    }

    pub fn get_executable_path(&self) -> (r: &String)
        ensures
            r == self.executable_path,
    {
        &self.executable_path
    }

    /// Selects the VM to be manipulated; the stored name is escaped for
    /// the interpreter.
    pub fn vm_name(&mut self, vm_name: Option<String>)
        ensures
            final(self).executable_path == old(self).executable_path,
            final(self).guest_username == old(self).guest_username,
            final(self).guest_password == old(self).guest_password,
            match vm_name {
                Some(n) => final(self).vm_name matches Some(sn) && sn@ == escape_pwsh_spec(n@),
                None => final(self).vm_name is None,
            },
    {
        self.vm_name = match vm_name {
            Some(n) => Some(escape_pwsh(n.as_str())),
            None => None,
        };
    }

    pub fn get_vm_name(&self) -> (r: &Option<String>)
        ensures
            r == self.vm_name,
    {
        &self.vm_name
    }

    /// Sets the guest username; the stored name is escaped for the
    /// interpreter.
    pub fn guest_username(&mut self, guest_username: Option<String>)
        ensures
            final(self).executable_path == old(self).executable_path,
            final(self).vm_name == old(self).vm_name,
            final(self).guest_password == old(self).guest_password,
            match guest_username {
                Some(n) => final(self).guest_username matches Some(sn) && sn@
                    == escape_pwsh_spec(n@),
                None => final(self).guest_username is None,
            },
    {
        self.guest_username = match guest_username {
            Some(n) => Some(escape_pwsh(n.as_str())),
            None => None,
        };
    }

    /// Sets the guest password; the stored password is escaped for the
    /// interpreter.
    pub fn guest_password(&mut self, guest_password: Option<String>)
        ensures
            final(self).executable_path == old(self).executable_path,
            final(self).vm_name == old(self).vm_name,
            final(self).guest_username == old(self).guest_username,
            match guest_password {
                Some(n) => final(self).guest_password matches Some(sn) && sn@
                    == escape_pwsh_spec(n@),
                None => final(self).guest_password is None,
            },
    {
        self.guest_password = match guest_password {
            Some(n) => Some(escape_pwsh(n.as_str())),
            None => None,
        };
    }

    /// The selected, already escaped VM name, or the error every
    /// operation that needs one returns.
    fn retrieve_vm(&self) -> (r: VmResult<&String>)
        ensures
            match r {
                Ok(v) => self.vm_name matches Some(n) && v == n,
                Err(e) => self.vm_name is None && err_is(e, ErrorKind::VmIsNotSpecified),
            },
    {
        match &self.vm_name {
            Some(v) => Ok(v),
            None => Err(VmError::from(ErrorKind::VmIsNotSpecified)),
        }
    }

    /// The configured, already escaped guest username, or the error for
    /// missing credentials.
    fn retrieve_username(&self) -> (r: VmResult<&String>)
        ensures
            match r {
                Ok(v) => self.guest_username matches Some(n) && v == n,
                Err(e) => self.guest_username is None && err_is(
                    e,
                    ErrorKind::CredentialIsNotSpecified,
                ),
            },
    {
        match &self.guest_username {
            Some(v) => Ok(v),
            None => Err(VmError::from(ErrorKind::CredentialIsNotSpecified)),
        }
    }

    /// The configured, already escaped guest password, or the error for
    /// missing credentials.
    fn retrieve_password(&self) -> (r: VmResult<&String>)
        ensures
            match r {
                Ok(v) => self.guest_password matches Some(n) && v == n,
                Err(e) => self.guest_password is None && err_is(
                    e,
                    ErrorKind::CredentialIsNotSpecified,
                ),
            },
    {
        match &self.guest_password {
            Some(v) => Ok(v),
            None => Err(VmError::from(ErrorKind::CredentialIsNotSpecified)),
        }
    }

    /// The arguments every interpreter invocation opens with: no profile,
    /// no logo, and a neutral UI culture so that diagnostics arrive in
    /// the English vocabulary the error translator knows, then the
    /// cmdlet.
    pub open spec fn preamble_spec(self, cmdlet: Seq<char>) -> Seq<Seq<char>> {
        seq![
            self.executable_path@,
            "-NoProfile"@,
            "-NoLogo"@,
            "-Command"@,
            "[Threading.Thread]::CurrentThread.CurrentUICulture = 'en-US';"@,
            cmdlet,
        ]
    }

    fn ps_command(&self, cmdlet: &str) -> (r: Vec<String>)
        ensures
            r.deep_view() == self.preamble_spec(cmdlet@),
    {
        let mut v: Vec<String> = Vec::new();
        v.push(self.executable_path.clone());
        v.push(String::from_str("-NoProfile"));
        v.push(String::from_str("-NoLogo"));
        v.push(String::from_str("-Command"));
        v.push(
            String::from_str("[Threading.Thread]::CurrentThread.CurrentUICulture = 'en-US';"),
        );
        v.push(cmdlet.to_owned());
        proof {
            assert(v.deep_view() =~~= self.preamble_spec(cmdlet@));
        }
        v
    }

    /// Classifies one diagnostic of the script host, which opens its
    /// error text with the cmdlet name and a colon; any other text is
    /// passed through as the output.
    pub fn check(s: String, cmd_name: &str) -> (r: VmResult<String>)
        ensures
            match r {
                Ok(t) => !is_prefix_of(cmd_name@ + " : "@, s@) && t == s,
                Err(e) => is_prefix_of(cmd_name@ + " : "@, s@) && hyperv_error_spec(
                    trim_spec(s@.skip(cmd_name@.len() as int + 3)),
                    e,
                ),
            },
    {
        proof {
            reveal_strlit(" : ");
        }
        let mut error_str = cmd_name.to_owned();
        error_str.append(" : ");
        match strip_prefix_str(s.as_str(), error_str.as_str()) {
            Some(rest) => {
                proof {
                    assert(rest@ =~= s@.skip(cmd_name@.len() as int + 3));
                }
                let rest = trim_str(rest);
                Err(Self::handle_error(rest))
            },
            None => Ok(s),
        }
    }

    /// What one interpreter invocation produced: nonempty stderr is
    /// checked for the cmdlet's error prefix, empty stderr passes stdout
    /// through.
    pub fn exec_output(stdout: String, stderr: String, cmd_name: &str) -> (r: VmResult<String>)
        ensures
            match r {
                Ok(t) => if stderr@.len() > 0 {
                    !is_prefix_of(cmd_name@ + " : "@, stderr@) && t == stderr
                } else {
                    t == stdout
                },
                Err(e) => stderr@.len() > 0 && is_prefix_of(cmd_name@ + " : "@, stderr@)
                    && hyperv_error_spec(trim_spec(stderr@.skip(cmd_name@.len() as int + 3)), e),
            },
    {
        if stderr.as_str().unicode_len() > 0 {
            Self::check(stderr, cmd_name)
        } else {
            Ok(stdout)
        }
    }

    /// Classifies one diagnostic message of the script host, first match
    /// wins; unmatched text is preserved verbatim.
    pub fn handle_error(s: &str) -> (r: VmError)
        ensures
            hyperv_error_spec(s@, r),
    {
        if starts_with_str(s, "You do not have the required permission to complete") {
            return VmError::from(ErrorKind::PrivilegesRequired);
        }
        if starts_with_str(s, "Hyper-V was unable to find a virtual machine with name") {
            return VmError::from(ErrorKind::VmNotFound);
        }
        if starts_with_str(
            s,
            "The operation cannot be performed while the virtual machine is in its current state.",
        ) {
            return VmError::from(ErrorKind::InvalidPowerState(VmPowerState::Unknown));
        }
        if starts_with_str(s, "Unable to find a snapshot matching the given criteria.") {
            return VmError::from(ErrorKind::SnapshotNotFound);
        }
        match strip_prefix_str(s, "Access to the path") {
            Some(rest) => {
                proof {
                    assert(rest@ =~= s@.skip("Access to the path"@.len() as int));
                }
                if contains_str(rest, " is denied.") {
                    return VmError::from(ErrorKind::PermissionDenied);
                }
                return VmError::from(ErrorKind::UnexpectedResponse(rest.to_owned()));
            },
            None => {},
        }
        match strip_prefix_str(s, "Cannot validate argument on parameter '") {
            Some(rest) => {
                proof {
                    assert(rest@ =~= s@.skip(
                        "Cannot validate argument on parameter '"@.len() as int,
                    ));
                }
                match find_str(rest, "'.") {
                    Some(p) => {
                        let param = rest.substring_char(0, p);
                        proof {
                            assert(param@ =~= rest@.take(p as int));
                        }
                        return VmError::from(ErrorKind::InvalidParameter(param.to_owned()));
                    },
                    None => {
                        proof {
                            crate::text::lemma_find_sub_idx(rest@, "'."@);
                            if find_sub_idx(rest@, "'."@) >= 0 {
                                assert(crate::text::contains_at(
                                    rest@,
                                    find_sub_idx(rest@, "'."@),
                                    "'."@,
                                ));
                            }
                        }
                        return unknown_error(s);
                    },
                }
            },
            None => {},
        }
        unknown_error(s)
    }

    /// The command line that lists the VMs with their ids and names in
    /// the JSON serialization.
    pub fn get_vm(&self) -> (r: Vec<String>)
        ensures
            r.deep_view() == self.preamble_spec("Get-VM"@) + seq![
                "|select VMId, Name|ConvertTo-Json"@,
            ],
    {
        let mut v = self.ps_command("Get-VM");
        let ghost s0 = v.deep_view();
        v.push(String::from_str("|select VMId, Name|ConvertTo-Json"));
        proof {
            assert(v.deep_view() =~~= s0 + seq!["|select VMId, Name|ConvertTo-Json"@]);
        }
        v
    }

    /// The command line that asks for the selected VM's numeric state in
    /// the JSON serialization.
    pub fn get_power_state(&self) -> (r: VmResult<Vec<String>>)
        ensures
            match r {
                Ok(v) => self.vm_name matches Some(n) && v.deep_view() == self.preamble_spec(
                    "Get-VM"@,
                ) + seq![n@, "|select State|ConvertTo-Json"@],
                Err(e) => self.vm_name is None && err_is(e, ErrorKind::VmIsNotSpecified),
            },
    {
        let vm = match self.retrieve_vm() {
            Ok(v) => v,
            Err(e) => {
                return Err(e);
            },
        };
        let mut v = self.ps_command("Get-VM");
        let ghost s0 = v.deep_view();
        v.push(vm.clone());
        v.push(String::from_str("|select State|ConvertTo-Json"));
        proof {
            assert(v.deep_view() =~~= s0 + seq![vm@, "|select State|ConvertTo-Json"@]);
        }
        Ok(v)
    }

    fn vm_array_cmd(&self, cmdlet: &str) -> (r: VmResult<Vec<String>>)
        ensures
            match r {
                Ok(v) => self.vm_name matches Some(n) && v.deep_view() == self.preamble_spec(
                    cmdlet@,
                ) + seq!["@("@, n@, ")"@],
                Err(e) => self.vm_name is None && err_is(e, ErrorKind::VmIsNotSpecified),
            },
    {
        let vm = match self.retrieve_vm() {
            Ok(v) => v,
            Err(e) => {
                return Err(e);
            },
        };
        let mut v = self.ps_command(cmdlet);
        let ghost s0 = v.deep_view();
        v.push(String::from_str("@("));
        v.push(vm.clone());
        v.push(String::from_str(")"));
        proof {
            assert(v.deep_view() =~~= s0 + seq!["@("@, vm@, ")"@]);
        }
        Ok(v)
    }

    /// The command line that starts the selected VM.
    pub fn start_vm(&self) -> (r: VmResult<Vec<String>>)
        ensures
            match r {
                Ok(v) => self.vm_name matches Some(n) && v.deep_view() == self.preamble_spec(
                    "Start-VM"@,
                ) + seq!["@("@, n@, ")"@],
                Err(e) => self.vm_name is None && err_is(e, ErrorKind::VmIsNotSpecified),
            },
    {
        self.vm_array_cmd("Start-VM")
    }

    /// The command line that stops the selected VM: forced, turned off
    /// hard when `turn_off` is set, saved instead when `use_save` is.
    pub fn stop_vm(&self, turn_off: bool, use_save: bool) -> (r: VmResult<Vec<String>>)
        ensures
            match r {
                Ok(v) => self.vm_name matches Some(n) && v.deep_view() == self.preamble_spec(
                    "Stop-VM"@,
                ) + seq!["-Force"@, "@("@, n@, ")"@] + (if turn_off {
                    seq!["-TurnOff"@]
                } else {
                    Seq::empty()
                }) + (if use_save {
                    seq!["-Save"@]
                } else {
                    Seq::empty()
                }),
                Err(e) => self.vm_name is None && err_is(e, ErrorKind::VmIsNotSpecified),
            },
    {
        let vm = match self.retrieve_vm() {
            Ok(v) => v,
            Err(e) => {
                return Err(e);
            },
        };
        let mut v = self.ps_command("Stop-VM");
        let ghost s0 = v.deep_view();
        v.push(String::from_str("-Force"));
        v.push(String::from_str("@("));
        v.push(vm.clone());
        v.push(String::from_str(")"));
        proof {
            assert(v.deep_view() =~~= s0 + seq!["-Force"@, "@("@, vm@, ")"@]);
        }
        let ghost s1 = v.deep_view();
        if turn_off {
            v.push(String::from_str("-TurnOff"));
        }
        proof {
            assert(v.deep_view() =~~= s1 + (if turn_off {
                seq!["-TurnOff"@]
            } else {
                Seq::<Seq<char>>::empty()
            }));
        }
        let ghost s2 = v.deep_view();
        if use_save {
            v.push(String::from_str("-Save"));
        }
        proof {
            assert(v.deep_view() =~~= s2 + (if use_save {
                seq!["-Save"@]
            } else {
                Seq::<Seq<char>>::empty()
            }));
        }
        Ok(v)
    }

    /// The command line that suspends the selected VM.
    pub fn suspend_vm(&self) -> (r: VmResult<Vec<String>>)
        ensures
            match r {
                Ok(v) => self.vm_name matches Some(n) && v.deep_view() == self.preamble_spec(
                    "Suspend-VM"@,
                ) + seq!["@("@, n@, ")"@],
                Err(e) => self.vm_name is None && err_is(e, ErrorKind::VmIsNotSpecified),
            },
    {
        self.vm_array_cmd("Suspend-VM")
    }

    /// The command line that resumes the selected VM.
    pub fn resume_vm(&self) -> (r: VmResult<Vec<String>>)
        ensures
            match r {
                Ok(v) => self.vm_name matches Some(n) && v.deep_view() == self.preamble_spec(
                    "Resume-VM"@,
                ) + seq!["@("@, n@, ")"@],
                Err(e) => self.vm_name is None && err_is(e, ErrorKind::VmIsNotSpecified),
            },
    {
        self.vm_array_cmd("Resume-VM")
    }

    /// The command line that restarts the selected VM without a prompt.
    pub fn restart_vm(&self) -> (r: VmResult<Vec<String>>)
        ensures
            match r {
                Ok(v) => self.vm_name matches Some(n) && v.deep_view() == self.preamble_spec(
                    "Restart-VM"@,
                ) + seq!["-Confirm:$false"@, "@("@, n@, ")"@],
                Err(e) => self.vm_name is None && err_is(e, ErrorKind::VmIsNotSpecified),
            },
    {
        let vm = match self.retrieve_vm() {
            Ok(v) => v,
            Err(e) => {
                return Err(e);
            },
        };
        let mut v = self.ps_command("Restart-VM");
        let ghost s0 = v.deep_view();
        v.push(String::from_str("-Confirm:$false"));
        v.push(String::from_str("@("));
        v.push(vm.clone());
        v.push(String::from_str(")"));
        proof {
            assert(v.deep_view() =~~= s0 + seq!["-Confirm:$false"@, "@("@, vm@, ")"@]);
        }
        Ok(v)
    }

    /// The command line that lists the selected VM's checkpoints in the
    /// JSON serialization.
    pub fn get_vm_snapshot(&self) -> (r: VmResult<Vec<String>>)
        ensures
            match r {
                Ok(v) => self.vm_name matches Some(n) && v.deep_view() == self.preamble_spec(
                    "Get-VMSnapshot"@,
                ) + seq![n@, "|select Id, Name, Notes|ConvertTo-Json"@],
                Err(e) => self.vm_name is None && err_is(e, ErrorKind::VmIsNotSpecified),
            },
    {
        let vm = match self.retrieve_vm() {
            Ok(v) => v,
            Err(e) => {
                return Err(e);
            },
        };
        let mut v = self.ps_command("Get-VMSnapshot");
        let ghost s0 = v.deep_view();
        v.push(vm.clone());
        v.push(String::from_str("|select Id, Name, Notes|ConvertTo-Json"));
        proof {
            assert(v.deep_view() =~~= s0 + seq![vm@, "|select Id, Name, Notes|ConvertTo-Json"@]);
        }
        Ok(v)
    }

    /// The command line that takes a checkpoint called `name` of the
    /// selected VM; the name is escaped here.
    pub fn checkpoint_vm(&self, name: &str) -> (r: VmResult<Vec<String>>)
        ensures
            match r {
                Ok(v) => self.vm_name matches Some(n) && v.deep_view() == self.preamble_spec(
                    "Checkpoint-VM"@,
                ) + seq!["@("@, n@, ")"@, "-SnapshotName"@, escape_pwsh_spec(name@)],
                Err(e) => self.vm_name is None && err_is(e, ErrorKind::VmIsNotSpecified),
            },
    {
        let mut v = match self.vm_array_cmd("Checkpoint-VM") {
            Ok(v) => v,
            Err(e) => {
                return Err(e);
            },
        };
        let ghost s0 = v.deep_view();
        v.push(String::from_str("-SnapshotName"));
        v.push(escape_pwsh(name));
        proof {
            assert(v.deep_view() =~~= s0 + seq!["-SnapshotName"@, escape_pwsh_spec(name@)]);
        }
        Ok(v)
    }

    /// The command line that restores the checkpoint called `name`; the
    /// name is escaped here.
    pub fn restore_vm_snapshot(&self, name: &str) -> (r: VmResult<Vec<String>>)
        ensures
            match r {
                Ok(v) => self.vm_name matches Some(n) && v.deep_view() == self.preamble_spec(
                    "Restore-VMSnapshot"@,
                ) + seq!["-VMName"@, n@, "-Confirm:$false -Name"@, escape_pwsh_spec(name@)],
                Err(e) => self.vm_name is None && err_is(e, ErrorKind::VmIsNotSpecified),
            },
    {
        let vm = match self.retrieve_vm() {
            Ok(v) => v,
            Err(e) => {
                return Err(e);
            },
        };
        let mut v = self.ps_command("Restore-VMSnapshot");
        let ghost s0 = v.deep_view();
        v.push(String::from_str("-VMName"));
        v.push(vm.clone());
        v.push(String::from_str("-Confirm:$false -Name"));
        v.push(escape_pwsh(name));
        proof {
            assert(v.deep_view() =~~= s0 + seq![
                "-VMName"@,
                vm@,
                "-Confirm:$false -Name"@,
                escape_pwsh_spec(name@),
            ]);
        }
        Ok(v)
    }

    /// The command line that removes the checkpoint called `name`; the
    /// name is escaped here.
    pub fn remove_vm_snapshot(&self, name: &str) -> (r: VmResult<Vec<String>>)
        ensures
            match r {
                Ok(v) => self.vm_name matches Some(n) && v.deep_view() == self.preamble_spec(
                    "Remove-VMSnapshot"@,
                ) + seq!["@("@, n@, ")"@, "-Confirm:$false -Name"@, escape_pwsh_spec(name@)],
                Err(e) => self.vm_name is None && err_is(e, ErrorKind::VmIsNotSpecified),
            },
    {
        let mut v = match self.vm_array_cmd("Remove-VMSnapshot") {
            Ok(v) => v,
            Err(e) => {
                return Err(e);
            },
        };
        let ghost s0 = v.deep_view();
        v.push(String::from_str("-Confirm:$false -Name"));
        v.push(escape_pwsh(name));
        proof {
            assert(v.deep_view() =~~= s0 + seq![
                "-Confirm:$false -Name"@,
                escape_pwsh_spec(name@),
            ]);
        }
        Ok(v)
    }

    /// The command line that copies a host file to the selected VM's
    /// guest; the paths are escaped here.
    pub fn copy_vm_file(&self, src_path: &str, dst_path: &str, create_full_path: bool) -> (r:
        VmResult<Vec<String>>)
        ensures
            match r {
                Ok(v) => self.vm_name matches Some(n) && v.deep_view() == self.preamble_spec(
                    "Copy-VMFile"@,
                ) + seq!["@("@, n@, ")"@] + seq![
                    "-Force"@,
                    "-SourcePath"@,
                    escape_pwsh_spec(src_path@),
                    "-DestinationPath"@,
                    escape_pwsh_spec(dst_path@),
                    "-FileSource Host"@,
                ] + (if create_full_path {
                    seq!["-CreateFullPath"@]
                } else {
                    Seq::empty()
                }),
                Err(e) => self.vm_name is None && err_is(e, ErrorKind::VmIsNotSpecified),
            },
    {
        let mut v = match self.vm_array_cmd("Copy-VMFile") {
            Ok(v) => v,
            Err(e) => {
                return Err(e);
            },
        };
        let ghost s0 = v.deep_view();
        v.push(String::from_str("-Force"));
        v.push(String::from_str("-SourcePath"));
        v.push(escape_pwsh(src_path));
        v.push(String::from_str("-DestinationPath"));
        v.push(escape_pwsh(dst_path));
        v.push(String::from_str("-FileSource Host"));
        proof {
            assert(v.deep_view() =~~= s0 + seq![
                "-Force"@,
                "-SourcePath"@,
                escape_pwsh_spec(src_path@),
                "-DestinationPath"@,
                escape_pwsh_spec(dst_path@),
                "-FileSource Host"@,
            ]);
        }
        let ghost s1 = v.deep_view();
        if create_full_path {
            v.push(String::from_str("-CreateFullPath"));
        }
        proof {
            assert(v.deep_view() =~~= s1 + (if create_full_path {
                seq!["-CreateFullPath"@]
            } else {
                Seq::<Seq<char>>::empty()
            }));
        }
        Ok(v)
    }

    /// The command line that copies a guest file to the host through a
    /// remote session opened with the configured credentials; every
    /// interpolated value is escaped when it is stored or here.
    pub fn copy_vm_file_from_guest_to_host(&self, src_path: &str, dst_path: &str) -> (r: VmResult<
        Vec<String>,
    >)
        ensures
            match r {
                Ok(v) => self.vm_name matches Some(n) && self.guest_username matches Some(u)
                    && self.guest_password matches Some(pw) && v.deep_view() == seq![
                    self.executable_path@,
                    "-NoProfile"@,
                    "-NoLogo"@,
                    "-Command"@,
                    "[Threading.Thread]::CurrentThread.CurrentUICulture = 'en-US';"@,
                    "$password = ConvertTo-SecureString"@,
                    pw@,
                    "-AsPlainText -Force;"@,
                    "$cred = New-Object System.Management.Automation.PSCredential ("@,
                    u@,
                    ", $password);"@,
                    "$sess = New-PSSession -VMName"@,
                    n@,
                    "-Credential $cred;"@,
                    "Copy-Item"@,
                    "-FromSession $sess -Path"@,
                    escape_pwsh_spec(src_path@),
                    "-Destination"@,
                    escape_pwsh_spec(dst_path@),
                    "; Remove-PSSession $sess;"@,
                ],
                Err(e) => (self.vm_name is None && err_is(e, ErrorKind::VmIsNotSpecified)) || (
                self.vm_name is Some && (self.guest_username is None || self.guest_password
                    is None) && err_is(e, ErrorKind::CredentialIsNotSpecified)),
            },
    {
        let vm = match self.retrieve_vm() {
            Ok(v) => v,
            Err(e) => {
                return Err(e);
            },
        };
        let username = match self.retrieve_username() {
            Ok(v) => v,
            Err(e) => {
                return Err(e);
            },
        };
        let password = match self.retrieve_password() {
            Ok(v) => v,
            Err(e) => {
                return Err(e);
            },
        };
        let mut v: Vec<String> = Vec::new();
        v.push(self.executable_path.clone());
        v.push(String::from_str("-NoProfile"));
        v.push(String::from_str("-NoLogo"));
        v.push(String::from_str("-Command"));
        v.push(
            String::from_str("[Threading.Thread]::CurrentThread.CurrentUICulture = 'en-US';"),
        );
        v.push(String::from_str("$password = ConvertTo-SecureString"));
        v.push(password.clone());
        v.push(String::from_str("-AsPlainText -Force;"));
        v.push(
            String::from_str("$cred = New-Object System.Management.Automation.PSCredential ("),
        );
        v.push(username.clone());
        v.push(String::from_str(", $password);"));
        v.push(String::from_str("$sess = New-PSSession -VMName"));
        v.push(vm.clone());
        v.push(String::from_str("-Credential $cred;"));
        v.push(String::from_str("Copy-Item"));
        v.push(String::from_str("-FromSession $sess -Path"));
        v.push(escape_pwsh(src_path));
        v.push(String::from_str("-Destination"));
        v.push(escape_pwsh(dst_path));
        v.push(String::from_str("; Remove-PSSession $sess;"));
        proof {
            assert(v.deep_view() =~~= seq![
                self.executable_path@,
                "-NoProfile"@,
                "-NoLogo"@,
                "-Command"@,
                "[Threading.Thread]::CurrentThread.CurrentUICulture = 'en-US';"@,
                "$password = ConvertTo-SecureString"@,
                password@,
                "-AsPlainText -Force;"@,
                "$cred = New-Object System.Management.Automation.PSCredential ("@,
                username@,
                ", $password);"@,
                "$sess = New-PSSession -VMName"@,
                vm@,
                "-Credential $cred;"@,
                "Copy-Item"@,
                "-FromSession $sess -Path"@,
                escape_pwsh_spec(src_path@),
                "-Destination"@,
                escape_pwsh_spec(dst_path@),
                "; Remove-PSSession $sess;"@,
            ]);
        }
        Ok(v)
    }

    /// What a power-transition answer means: the warning that the VM was
    /// already in the requested state surfaces as `InvalidPowerState`
    /// carrying `already_state`, anything else is success.
    pub fn check_transition_response(s: &str, already_state: VmPowerState) -> (r: VmResult<()>)
        ensures
            match r {
                Ok(_) => !is_prefix_of(
                    "WARNING: The virtual machine is already in the specified state."@,
                    s@,
                ),
                Err(e) => is_prefix_of(
                    "WARNING: The virtual machine is already in the specified state."@,
                    s@,
                ) && err_is_invalid_state(e, already_state),
            },
    {
        if starts_with_str(s, "WARNING: The virtual machine is already in the specified state.")
        {
            Err(VmError::from(ErrorKind::InvalidPowerState(already_state)))
        } else {
            Ok(())
        }
    }

    /// The numeric state in a state answer: the integer `State` member of
    /// the JSON answer, mapped through the numeric state table. An answer
    /// that is not well-formed JSON or has no such member fails with
    /// `UnexpectedResponse` carrying the answer.
    pub fn parse_power_state(s: &str) -> (r: VmResult<VmPowerState>)
        ensures
            match r {
                Ok(st) => json_wf(s@) && (jint_field(json_doc(s@), "State"@) matches Some(n)
                    && st == power_state_of_number(n)),
                Err(e) => (!json_wf(s@) || jint_field(json_doc(s@), "State"@) is None)
                    && err_is_unexpected(e, s@),
            },
    {
        let v = match json_parse(s) {
            Some(v) => v,
            None => {
                return Err(VmError::from(ErrorKind::UnexpectedResponse(s.to_owned())));
            },
        };
        match crate::json::get_i64_field(&v, "State") {
            Some(n) => Ok(power_state_from_number(n)),
            None => Err(VmError::from(ErrorKind::UnexpectedResponse(s.to_owned()))),
        }
    }

    /// The VM list in a listing answer: an empty answer is an empty
    /// list, a single object is a one-element list, an array is taken
    /// element by element; every element must carry string id and name
    /// members, which become the VM's id and name, in order. Anything
    /// else fails with `UnexpectedResponse` carrying the answer.
    pub fn parse_vm_list(s: &str) -> (r: VmResult<Vec<Vm>>)
        ensures
            hv_vm_list_spec(s@, r),
    {
        if s.unicode_len() == 0 {
            return Ok(Vec::new());
        }
        let v = match json_parse(s) {
            Some(v) => v,
            None => {
                return Err(VmError::from(ErrorKind::UnexpectedResponse(s.to_owned())));
            },
        };
        let mut out: Vec<Vm> = Vec::new();
        match json_as_array(&v) {
            Some(items) => {
                let ghost elems = crate::json::arr_models(items@);
                let n: usize = items.len();
                let mut i: usize = 0;
                while i < n
                    invariant
                        n == items@.len(),
                        n == elems.len(),
                        elems == crate::json::arr_models(items@),
                        s@.len() > 0,
                        json_wf(s@),
                        json_doc(s@) == JVal::Arr(elems),
                        0 <= i <= n,
                        out@.len() == i,
                        forall|k: int| 0 <= k < i ==> hv_vm_elem_ok(#[trigger] out@[k], elems[k]),
                    decreases n - i,
                {
                    match Self::vm_of_value(&items[i]) {
                        Some(vm) => {
                            proof {
                                assert(elems[i as int] == json_model(items@[i as int]));
                                assert(hv_vm_elem_ok(vm, elems[i as int]));
                            }
                            out.push(vm);
                        },
                        None => {
                            proof {
                                assert(elems[i as int] == json_model(items@[i as int]));
                                assert(!hv_all_vms(elems)) by {
                                    assert(hv_vm_of(elems[i as int]) is None);
                                }
                            }
                            return Err(VmError::from(
                                ErrorKind::UnexpectedResponse(s.to_owned()),
                            ));
                        },
                    }
                    i = i + 1;
                }
                proof {
                    assert forall|k: int|
                        0 <= k < elems.len() implies hv_vm_of(#[trigger] elems[k]) is Some by {
                        assert(hv_vm_elem_ok(out@[k], elems[k]));
                    }
                    assert(hv_all_vms(elems));
                }
                Ok(out)
            },
            None => {
                match Self::vm_of_value(&v) {
                    Some(vm) => {
                        out.push(vm);
                        Ok(out)
                    },
                    None => Err(VmError::from(ErrorKind::UnexpectedResponse(s.to_owned()))),
                }
            },
        }
    }

    fn vm_of_value(v: &serde_json::Value) -> (r: Option<Vm>)
        ensures
            match r {
                Some(vm) => hv_vm_of(json_model(*v)) matches Some(t) && hv_vm_matches(vm, t),
                None => hv_vm_of(json_model(*v)) is None,
            },
    {
        let id = match crate::json::get_str_field(v, "VMId") {
            Some(x) => x,
            None => {
                return None;
            },
        };
        let name = match crate::json::get_str_field(v, "Name") {
            Some(x) => x,
            None => {
                return None;
            },
        };
        Some(Vm { id: Some(id), name: Some(name), path: None })
    }

    /// The checkpoint list in a listing answer, read as `parse_vm_list`
    /// reads VM lists; every element must carry string id, name and
    /// notes members, which become the snapshot's id, name and detail.
    pub fn parse_snapshot_list(s: &str) -> (r: VmResult<Vec<Snapshot>>)
        ensures
            hv_snapshot_list_spec(s@, r),
    {
        if s.unicode_len() == 0 {
            return Ok(Vec::new());
        }
        let v = match json_parse(s) {
            Some(v) => v,
            None => {
                return Err(VmError::from(ErrorKind::UnexpectedResponse(s.to_owned())));
            },
        };
        let mut out: Vec<Snapshot> = Vec::new();
        match json_as_array(&v) {
            Some(items) => {
                let ghost elems = crate::json::arr_models(items@);
                let n: usize = items.len();
                let mut i: usize = 0;
                while i < n
                    invariant
                        n == items@.len(),
                        n == elems.len(),
                        elems == crate::json::arr_models(items@),
                        s@.len() > 0,
                        json_wf(s@),
                        json_doc(s@) == JVal::Arr(elems),
                        0 <= i <= n,
                        out@.len() == i,
                        forall|k: int|
                            0 <= k < i ==> hv_snapshot_elem_ok(#[trigger] out@[k], elems[k]),
                    decreases n - i,
                {
                    match Self::snapshot_of_value(&items[i]) {
                        Some(sn) => {
                            proof {
                                assert(elems[i as int] == json_model(items@[i as int]));
                                assert(hv_snapshot_elem_ok(sn, elems[i as int]));
                            }
                            out.push(sn);
                        },
                        None => {
                            proof {
                                assert(elems[i as int] == json_model(items@[i as int]));
                                assert(!hv_all_snapshots(elems)) by {
                                    assert(hv_snapshot_of(elems[i as int]) is None);
                                }
                            }
                            return Err(VmError::from(
                                ErrorKind::UnexpectedResponse(s.to_owned()),
                            ));
                        },
                    }
                    i = i + 1;
                }
                proof {
                    assert forall|k: int|
                        0 <= k < elems.len() implies hv_snapshot_of(
                        #[trigger] elems[k],
                    ) is Some by {
                        assert(hv_snapshot_elem_ok(out@[k], elems[k]));
                    }
                    assert(hv_all_snapshots(elems));
                }
                Ok(out)
            },
            None => {
                match Self::snapshot_of_value(&v) {
                    Some(sn) => {
                        out.push(sn);
                        Ok(out)
                    },
                    None => Err(VmError::from(ErrorKind::UnexpectedResponse(s.to_owned()))),
                }
            },
        }
    }

    fn snapshot_of_value(v: &serde_json::Value) -> (r: Option<Snapshot>)
        ensures
            match r {
                Some(sn) => hv_snapshot_of(json_model(*v)) matches Some(t)
                    && hv_snapshot_matches(sn, t),
                None => hv_snapshot_of(json_model(*v)) is None,
            },
    {
        let id = match crate::json::get_str_field(v, "Id") {
            Some(x) => x,
            None => {
                return None;
            },
        };
        let name = match crate::json::get_str_field(v, "Name") {
            Some(x) => x,
            None => {
                return None;
            },
        };
        let detail = match crate::json::get_str_field(v, "Notes") {
            Some(x) => x,
            None => {
                return None;
            },
        };
        Some(Snapshot { id: Some(id), name: Some(name), detail: Some(detail) })
    }

    /// Whether a snapshot called `name` stands in the list.
    pub fn snapshot_exists(snapshots: &Vec<Snapshot>, name: &str) -> (r: bool)
        ensures
            r == exists|k: int|
                0 <= k < snapshots@.len() && ((#[trigger] snapshots@[k]).name matches Some(n)
                    && n@ == name@),
    {
        let len: usize = snapshots.len();
        let mut i: usize = 0;
        while i < len
            invariant
                len == snapshots@.len(),
                0 <= i <= len,
                forall|k: int|
                    0 <= k < i ==> !((#[trigger] snapshots@[k]).name matches Some(n) && n@
                        == name@),
            decreases len - i,
        {
            match &snapshots[i].name {
                Some(n) => {
                    if crate::text::str_eq(n.as_str(), name) {
                        return true;
                    }
                },
                None => {},
            }
            i = i + 1;
        }
        false
    }
}

} // verus!
