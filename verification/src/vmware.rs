//! The backends for the second hypervisor product: the local management
//! tool and the remote HTTP API, together with the parsers for the
//! product's persisted VM inventories — line-oriented preference files
//! whose first line declares their text encoding.
//!
//! The inventory parsers exist because the local tool cannot enumerate
//! VMs itself; the host program reads the file's bytes and the functions
//! here do everything else.
use crate::text::{
    all_digits, digits_val, first_idx_of, is_prefix_of, lemma_first_idx_is, lemma_first_idx_of,
    lines_spec, split_lines, strip_prefix_str, trim_str,
};
use crate::types::Vm;
use crate::virtualbox::kv_of_line;
use vstd::prelude::*;
use vstd::string::*;

pub mod vmrest;
pub mod vmrun;

verus! {

/// Whether a text encoding label is one the decoding layer knows.
pub uninterp spec fn known_encoding_label(label: Seq<u8>) -> bool;

/// What decoding yields for a label and raw bytes: the text, and whether
/// any malformed sequence had to be replaced.
pub uninterp spec fn decoded(label: Seq<u8>, bytes: Seq<u8>) -> (Seq<char>, bool);

/// Relies on `encoding_rs::Encoding::for_label` chained with
/// `Encoding::decode`: the label lookup succeeds exactly on known labels,
/// and the decode result is a function of the label and the bytes alone.
/// The two calls stand in one item because the encoding value between
/// them is opaque and only the end-to-end result can be named.
#[verifier::external_body]
fn decode_with_label(label: &[u8], bytes: &[u8]) -> (r: Option<(String, bool)>)
    ensures
        r is Some <==> known_encoding_label(label@),
        r matches Some(t) ==> t.0@ == decoded(label@, bytes@).0 && t.1 == decoded(
            label@,
            bytes@,
        ).1,
{
    let enc = encoding_rs::Encoding::for_label(label)?;
    let (text, _, had_errors) = enc.decode(bytes);
    Some((text.into_owned(), had_errors))
}

/// The key and value a preference line denotes: the text before the
/// first `=` and the text after it, both trimmed, the value's
/// surrounding quotes stripped when both are there.
pub fn get_key_value(l: &str) -> (r: Option<(String, String)>)
    ensures
        match r {
            Some(kv) => kv_of_line(l@) matches Some(t) && kv.0@ == t.0 && kv.1@ == t.1,
            None => kv_of_line(l@) is None,
        },
{
    let llen: usize = l.unicode_len();
    match crate::text::find_char(l, '=') {
        Some(p) => {
            proof {
                lemma_first_idx_is(l@, '=', p as int);
            }
            let k = trim_str(l.substring_char(0, p)).to_owned();
            proof {
                assert(l@.subrange(0, p as int) =~= l@.take(p as int));
            }
            let v0 = trim_str(l.substring_char(p + 1, llen));
            let v0len: usize = v0.unicode_len();
            let v = if v0len >= 2 && v0.get_char(0) == '"' && v0.get_char(v0len - 1) == '"' {
                v0.substring_char(1, v0len - 1).to_owned()
            } else {
                v0.to_owned()
            };
            Some((k, v))
        },
        None => {
            proof {
                lemma_first_idx_of(l@, '=');
                if first_idx_of(l@, '=') != -1 {
                    assert(l@[first_idx_of(l@, '=')] == '=');
                }
            }
            None
        },
    }
}

/// Which inventory file a line-effect belongs to: the per-user
/// preference file with three-part keys, or the VM inventory with
/// two-part keys.
#[derive(Debug, Clone, Copy, PartialEq, Eq, Structural)]
pub enum PrefSchema {
    Preferences,
    Inventory,
}

/// Which field of a VM record a recognized key addresses.
#[derive(Debug, Clone, Copy, PartialEq, Eq, Structural)]
pub enum PrefField {
    Path,
    Name,
    Other,
}

/// What one decoded line contributes: the record index it addresses, the
/// field it sets, and the value — or nothing, for lines whose key has
/// the wrong shape.
pub open spec fn line_effect(schema: PrefSchema, l: Seq<char>) -> Option<(
    int,
    PrefField,
    Seq<char>,
)> {
    match kv_of_line(l) {
        Some(kv) => {
            let key = kv.0;
            let p1 = first_idx_of(key, '.');
            if p1 < 0 {
                None
            } else {
                let part1 = key.take(p1);
                let rest = key.skip(p1 + 1);
                let p2 = first_idx_of(rest, '.');
                match schema {
                    PrefSchema::Preferences => if p2 < 0 {
                        None
                    } else {
                        let part2 = rest.take(p2);
                        let part3 = rest.skip(p2 + 1);
                        if first_idx_of(part3, '.') >= 0 {
                            None
                        } else if part1 == "pref"@ && is_prefix_of("mruVM"@, part2) && part2.len()
                            > 5 && all_digits(part2.skip(5)) && digits_val(part2.skip(5))
                            <= u32::MAX {
                            Some(
                                (
                                    digits_val(part2.skip(5)),
                                    if part3 == "filename"@ {
                                        PrefField::Path
                                    } else if part3 == "displayName"@ {
                                        PrefField::Name
                                    } else {
                                        PrefField::Other
                                    },
                                    kv.1,
                                ),
                            )
                        } else {
                            None
                        }
                    },
                    PrefSchema::Inventory => if p2 >= 0 {
                        None
                    } else if is_prefix_of("vmlist"@, part1) && part1.len() > 6 && all_digits(
                        part1.skip(6),
                    ) && digits_val(part1.skip(6)) <= u32::MAX {
                        Some(
                            (
                                digits_val(part1.skip(6)),
                                if rest == "config"@ {
                                    PrefField::Path
                                } else if rest == "DisplayName"@ {
                                    PrefField::Name
                                } else {
                                    PrefField::Other
                                },
                                kv.1,
                            ),
                        )
                    } else {
                        None
                    },
                }
            }
        },
        None => None,
    }
}

/// One record under construction: its index and the two optional fields.
pub type PrefRec = (int, Option<Seq<char>>, Option<Seq<char>>);

/// A fresh record at index `n` with `f` set to `v`.
pub open spec fn mk_rec(n: int, f: PrefField, v: Seq<char>) -> PrefRec {
    match f {
        PrefField::Path => (n, Some(v), None),
        PrefField::Name => (n, None, Some(v)),
        PrefField::Other => (n, None, None),
    }
}

/// The record `t` with `f` set to `v`.
pub open spec fn set_field(t: PrefRec, f: PrefField, v: Seq<char>) -> PrefRec {
    match f {
        PrefField::Path => (t.0, Some(v), t.2),
        PrefField::Name => (t.0, t.1, Some(v)),
        PrefField::Other => t,
    }
}

/// Applies one field write to the accumulated records, which stay sorted
/// by index: an existing record is updated in place, a new one is
/// inserted where its index belongs.
pub open spec fn upsert(acc: Seq<PrefRec>, n: int, f: PrefField, v: Seq<char>) -> Seq<PrefRec>
    decreases acc.len(),
{
    if acc.len() == 0 {
        seq![mk_rec(n, f, v)]
    } else if acc[0].0 == n {
        seq![set_field(acc[0], f, v)] + acc.skip(1)
    } else if acc[0].0 < n {
        seq![acc[0]] + upsert(acc.skip(1), n, f, v)
    } else {
        seq![mk_rec(n, f, v)] + acc
    }
}

/// The records accumulated after reading the remaining lines, starting
/// from `acc`.
pub open spec fn prefs_from(
    schema: PrefSchema,
    lines: Seq<Seq<char>>,
    acc: Seq<PrefRec>,
) -> Seq<PrefRec>
    decreases lines.len(),
{
    if lines.len() == 0 {
        acc
    } else {
        match line_effect(schema, lines[0]) {
            Some(t) => prefs_from(schema, lines.skip(1), upsert(acc, t.0, t.1, t.2)),
            None => prefs_from(schema, lines.skip(1), acc),
        }
    }
}

/// The records of a whole decoded inventory text.
pub open spec fn prefs_of(schema: PrefSchema, s: Seq<char>) -> Seq<PrefRec> {
    prefs_from(schema, lines_spec(s), Seq::empty())
}

/// The VM value `vm` carries exactly the fields of the record `t`.
pub open spec fn pref_vm_matches(vm: Vm, t: PrefRec) -> bool {
    &&& vm.id is None
    &&& (match t.1 {
        Some(p) => vm.path matches Some(q) && q@ == p,
        None => vm.path is None,
    })
    &&& (match t.2 {
        Some(p) => vm.name matches Some(q) && q@ == p,
        None => vm.name is None,
    })
}

/// All indices in `acc` are strictly ascending.
pub open spec fn sorted_recs(acc: Seq<PrefRec>) -> bool {
    forall|i: int, j: int| 0 <= i < j < acc.len() ==> acc[i].0 < acc[j].0
}

proof fn lemma_upsert_at(acc: Seq<PrefRec>, n: int, f: PrefField, v: Seq<char>, j: int)
    requires
        sorted_recs(acc),
        0 <= j <= acc.len(),
        forall|i: int| 0 <= i < j ==> acc[i].0 < n,
        j == acc.len() || acc[j].0 >= n,
    ensures
        upsert(acc, n, f, v) == (if j < acc.len() && acc[j].0 == n {
            acc.update(j, set_field(acc[j], f, v))
        } else {
            acc.insert(j, mk_rec(n, f, v))
        }),
        sorted_recs(upsert(acc, n, f, v)),
    decreases j,
{
    if j == 0 {
        if acc.len() == 0 {
            assert(upsert(acc, n, f, v) =~~= acc.insert(0, mk_rec(n, f, v)));
        } else if acc[0].0 == n {
            assert(upsert(acc, n, f, v) =~~= acc.update(0, set_field(acc[0], f, v)));
        } else {
            assert(acc[0].0 > n);
            assert(upsert(acc, n, f, v) =~~= acc.insert(0, mk_rec(n, f, v)));
        }
    } else {
        assert(acc[0].0 < n);
        assert(sorted_recs(acc.skip(1))) by {
            assert(forall|a: int, b: int|
                0 <= a < b < acc.skip(1).len() ==> acc.skip(1)[a].0 == acc[a + 1].0 && acc.skip(
                    1,
                )[b].0 == acc[b + 1].0);
        }
        assert(forall|i: int| 0 <= i < j - 1 ==> acc.skip(1)[i].0 == acc[i + 1].0);
        assert(j - 1 == acc.skip(1).len() || acc.skip(1)[j - 1].0 >= n);
        lemma_upsert_at(acc.skip(1), n, f, v, j - 1);
        if j < acc.len() && acc[j].0 == n {
            assert(acc.skip(1)[j - 1] == acc[j]);
            assert(upsert(acc, n, f, v) =~~= seq![acc[0]] + acc.skip(1).update(
                j - 1,
                set_field(acc[j], f, v),
            ));
            assert(seq![acc[0]] + acc.skip(1).update(j - 1, set_field(acc[j], f, v)) =~~= acc
                .update(j, set_field(acc[j], f, v)));
        } else {
            assert(upsert(acc, n, f, v) =~~= seq![acc[0]] + acc.skip(1).insert(
                j - 1,
                mk_rec(n, f, v),
            ));
            assert(seq![acc[0]] + acc.skip(1).insert(j - 1, mk_rec(n, f, v)) =~~= acc.insert(
                j,
                mk_rec(n, f, v),
            ));
        }
    }
}

/// One VM record under construction, keyed by its index in the file.
struct PrefEntry {
    idx: u32,
    vm: Vm,
}

/// The entries carry exactly the accumulated records, in order.
spec fn entries_match(es: Seq<PrefEntry>, acc: Seq<PrefRec>) -> bool {
    es.len() == acc.len() && forall|k: int|
        0 <= k < es.len() ==> (#[trigger] es[k]).idx == acc[k].0 && pref_vm_matches(
            es[k].vm,
            acc[k],
        )
}

fn lower_idx_pos(entries: &Vec<PrefEntry>, idx: u32) -> (j: usize)
    ensures
        j <= entries@.len(),
        forall|k: int| 0 <= k < j ==> (#[trigger] entries@[k]).idx < idx,
        j == entries@.len() || entries@[j as int].idx >= idx,
{
    let elen: usize = entries.len();
    let mut j: usize = 0;
    while j < elen
        invariant
            elen == entries@.len(),
            0 <= j <= elen,
            forall|k: int| 0 <= k < j ==> (#[trigger] entries@[k]).idx < idx,
        decreases elen - j,
    {
        if entries[j].idx >= idx {
            return j;
        }
        j = j + 1;
    }
    j
}

/// What one line contributes, executably.
fn line_effect_exec(schema: PrefSchema, l: &str) -> (r: Option<(u32, PrefField, String)>)
    ensures
        match r {
            Some(t) => line_effect(schema, l@) matches Some(w) && t.0 == w.0 && t.1 == w.1
                && t.2@ == w.2,
            None => line_effect(schema, l@) is None,
        },
{
    let kv = match get_key_value(l) {
        Some(kv) => kv,
        None => {
            return None;
        },
    };
    let key = kv.0;
    let keylen: usize = key.as_str().unicode_len();
    let p1 = match crate::text::find_char(key.as_str(), '.') {
        Some(p) => p,
        None => {
            proof {
                lemma_first_idx_of(key@, '.');
                if first_idx_of(key@, '.') != -1 {
                    assert(key@[first_idx_of(key@, '.')] == '.');
                }
            }
            return None;
        },
    };
    proof {
        lemma_first_idx_is(key@, '.', p1 as int);
    }
    let part1 = key.as_str().substring_char(0, p1);
    let rest = key.as_str().substring_char(p1 + 1, keylen);
    proof {
        assert(part1@ =~= key@.take(p1 as int));
        assert(rest@ =~= key@.skip(p1 + 1));
    }
    let restlen: usize = rest.unicode_len();
    match schema {
        PrefSchema::Preferences => {
            let p2 = match crate::text::find_char(rest, '.') {
                Some(p) => p,
                None => {
                    proof {
                        lemma_first_idx_of(rest@, '.');
                        if first_idx_of(rest@, '.') != -1 {
                            assert(rest@[first_idx_of(rest@, '.')] == '.');
                        }
                    }
                    return None;
                },
            };
            proof {
                lemma_first_idx_is(rest@, '.', p2 as int);
            }
            let part2 = rest.substring_char(0, p2);
            let part3 = rest.substring_char(p2 + 1, restlen);
            proof {
                assert(part2@ =~= rest@.take(p2 as int));
                assert(part3@ =~= rest@.skip(p2 + 1));
            }
            match crate::text::find_char(part3, '.') {
                Some(q) => {
                    proof {
                        lemma_first_idx_of(part3@, '.');
                        if first_idx_of(part3@, '.') == -1 {
                            assert(part3@[q as int] == '.');
                            assert(false);
                        }
                    }
                    return None;
                },
                None => {
                    proof {
                        lemma_first_idx_of(part3@, '.');
                        if first_idx_of(part3@, '.') >= 0 {
                            assert(part3@[first_idx_of(part3@, '.')] == '.');
                        }
                    }
                },
            }
            if !crate::text::str_eq(part1, "pref") {
                return None;
            }
            let num = match strip_prefix_str(part2, "mruVM") {
                Some(x) => x,
                None => {
                    proof {
                        reveal_strlit("mruVM");
                    }
                    return None;
                },
            };
            proof {
                reveal_strlit("mruVM");
                assert(num@ =~= part2@.skip(5));
            }
            let n64 = match crate::text::parse_dec_u64(num) {
                Some(x) => x,
                None => {
                    return None;
                },
            };
            if n64 > 0xffff_ffff {
                return None;
            }
            let f = if crate::text::str_eq(part3, "filename") {
                PrefField::Path
            } else if crate::text::str_eq(part3, "displayName") {
                PrefField::Name
            } else {
                PrefField::Other
            };
            Some((n64 as u32, f, kv.1))
        },
        PrefSchema::Inventory => {
            match crate::text::find_char(rest, '.') {
                Some(q) => {
                    proof {
                        lemma_first_idx_of(rest@, '.');
                        if first_idx_of(rest@, '.') == -1 {
                            assert(rest@[q as int] == '.');
                            assert(false);
                        }
                    }
                    return None;
                },
                None => {
                    proof {
                        lemma_first_idx_of(rest@, '.');
                        if first_idx_of(rest@, '.') >= 0 {
                            assert(rest@[first_idx_of(rest@, '.')] == '.');
                        }
                    }
                },
            }
            let num = match strip_prefix_str(part1, "vmlist") {
                Some(x) => x,
                None => {
                    proof {
                        reveal_strlit("vmlist");
                    }
                    return None;
                },
            };
            proof {
                reveal_strlit("vmlist");
                assert(num@ =~= part1@.skip(6));
            }
            let n64 = match crate::text::parse_dec_u64(num) {
                Some(x) => x,
                None => {
                    return None;
                },
            };
            if n64 > 0xffff_ffff {
                return None;
            }
            let f = if crate::text::str_eq(rest, "config") {
                PrefField::Path
            } else if crate::text::str_eq(rest, "DisplayName") {
                PrefField::Name
            } else {
                PrefField::Other
            };
            Some((n64 as u32, f, kv.1))
        },
    }
}

/// Folds a decoded inventory text into its records, sorted by index.
fn fold_pref_text(schema: PrefSchema, s: &str) -> (r: Vec<Vm>)
    ensures
        r@.len() == prefs_of(schema, s@).len(),
        forall|k: int|
            0 <= k < r@.len() ==> pref_vm_matches(#[trigger] r@[k], prefs_of(schema, s@)[k]),
{
    let lines = split_lines(s);
    proof {
        assert(lines.deep_view().len() == lines@.len());
        assert(lines_spec(s@).skip(0) =~~= lines_spec(s@));
    }
    let n: usize = lines.len();
    let mut entries: Vec<PrefEntry> = Vec::new();
    let ghost mut acc: Seq<PrefRec> = Seq::empty();
    let mut i: usize = 0;
    while i < n
        invariant
            n == lines@.len(),
            lines.deep_view() == lines_spec(s@),
            0 <= i <= n,
            sorted_recs(acc),
            entries_match(entries@, acc),
            prefs_of(schema, s@) == prefs_from(schema, lines_spec(s@).skip(i as int), acc),
        decreases n - i,
    {
        let l: &String = &lines[i];
        proof {
            assert(l@ == lines.deep_view()[i as int]);
            assert(lines_spec(s@).skip(i as int)[0] == lines_spec(s@)[i as int]);
            assert(lines_spec(s@).skip(i as int).skip(1) =~~= lines_spec(s@).skip(i + 1));
        }
        match line_effect_exec(schema, l.as_str()) {
            Some(t) => {
                let (idx, f, val) = t;
                let elen: usize = entries.len();
                let j = lower_idx_pos(&entries, idx);
                proof {
                    assert forall|k: int| 0 <= k < j implies acc[k].0 < idx as int by {
                        assert(entries@[k].idx < idx);
                        assert(entries@[k].idx == acc[k].0);
                    }
                    if j < entries@.len() {
                        assert(entries@[j as int].idx == acc[j as int].0);
                    }
                    assert(j == acc.len() || acc[j as int].0 >= idx as int);
                    lemma_upsert_at(acc, idx as int, f, val@, j as int);
                }
                if j < elen && entries[j].idx == idx {
                    let updated = match f {
                        PrefField::Path => Vm {
                            path: Some(val),
                            ..entries[j].vm.clone()
                        },
                        PrefField::Name => Vm {
                            name: Some(val),
                            ..entries[j].vm.clone()
                        },
                        PrefField::Other => entries[j].vm.clone(),
                    };
                    entries.set(j, PrefEntry { idx, vm: updated });
                    proof {
                        acc = acc.update(j as int, set_field(acc[j as int], f, val@));
                    }
                } else {
                    let fresh = match f {
                        PrefField::Path => Vm { id: None, name: None, path: Some(val) },
                        PrefField::Name => Vm { id: None, name: Some(val), path: None },
                        PrefField::Other => Vm { id: None, name: None, path: None },
                    };
                    entries.insert(j, PrefEntry { idx, vm: fresh });
                    proof {
                        acc = acc.insert(j as int, mk_rec(idx as int, f, val@));
                    }
                }
            },
            None => {},
        }
        i = i + 1;
    }
    proof {
        assert(lines_spec(s@).skip(n as int).len() == 0);
    }
    let elen: usize = entries.len();
    let mut out: Vec<Vm> = Vec::new();
    let mut k: usize = 0;
    while k < elen
        invariant
            elen == entries@.len(),
            entries_match(entries@, acc),
            0 <= k <= elen,
            out@.len() == k,
            forall|m: int| 0 <= m < k ==> pref_vm_matches(#[trigger] out@[m], acc[m]),
        decreases elen - k,
    {
        out.push(entries[k].vm.clone());
        k = k + 1;
    }
    out
}

/// Whether an accumulated record survives the inventory's final filter:
/// a record whose path is present but empty is dropped.
pub open spec fn inv_keep(t: PrefRec) -> bool {
    !(t.1 matches Some(p) && p.len() == 0)
}

/// The records that survive the inventory filter, in order.
pub open spec fn filter_recs(recs: Seq<PrefRec>) -> Seq<PrefRec>
    decreases recs.len(),
{
    if recs.len() == 0 {
        Seq::empty()
    } else {
        (if inv_keep(recs[0]) {
            seq![recs[0]]
        } else {
            Seq::empty()
        }) + filter_recs(recs.skip(1))
    }
}

proof fn lemma_filter_snoc(recs: Seq<PrefRec>, t: PrefRec)
    ensures
        filter_recs(recs.push(t)) == filter_recs(recs) + (if inv_keep(t) {
            seq![t]
        } else {
            Seq::empty()
        }),
    decreases recs.len(),
{
    if recs.len() == 0 {
        assert(recs.push(t)[0] == t);
        assert(recs.push(t).skip(1) =~~= Seq::<PrefRec>::empty());
        assert(filter_recs(Seq::<PrefRec>::empty()) =~~= Seq::<PrefRec>::empty());
        assert(filter_recs(recs.push(t)) == (if inv_keep(t) {
            seq![t]
        } else {
            Seq::<PrefRec>::empty()
        }) + filter_recs(Seq::<PrefRec>::empty()));
        assert(filter_recs(recs.push(t)) =~~= filter_recs(recs) + (if inv_keep(t) {
            seq![t]
        } else {
            Seq::<PrefRec>::empty()
        }));
    } else {
        assert(recs.push(t)[0] == recs[0]);
        assert(recs.push(t).skip(1) =~~= recs.skip(1).push(t));
        lemma_filter_snoc(recs.skip(1), t);
        assert(filter_recs(recs.push(t)) =~~= filter_recs(recs) + (if inv_keep(t) {
            seq![t]
        } else {
            Seq::<PrefRec>::empty()
        }));
    }
}

/// The index of the first occurrence of `x` in the bytes `b`, or `-1`.
pub open spec fn first_u8_idx(b: Seq<u8>, x: u8) -> int
    decreases b.len(),
{
    if b.len() == 0 {
        -1
    } else if b[0] == x {
        0
    } else {
        let r = first_u8_idx(b.skip(1), x);
        if r < 0 {
            -1
        } else {
            r + 1
        }
    }
}

proof fn lemma_first_u8_idx(b: Seq<u8>, x: u8)
    ensures
        first_u8_idx(b, x) == -1 ==> forall|j: int| 0 <= j < b.len() ==> b[j] != x,
        first_u8_idx(b, x) != -1 ==> {
            let i = first_u8_idx(b, x);
            0 <= i < b.len() && b[i] == x && forall|j: int| 0 <= j < i ==> b[j] != x
        },
    decreases b.len(),
{
    if b.len() > 0 && b[0] != x {
        lemma_first_u8_idx(b.skip(1), x);
        let r = first_u8_idx(b.skip(1), x);
        if r == -1 {
            assert forall|j: int| 0 <= j < b.len() implies b[j] != x by {
                if j > 0 {
                    assert(b.skip(1)[j - 1] == b[j]);
                }
            }
        } else {
            assert(b.skip(1)[r] == b[r + 1]);
            assert forall|j: int| 0 <= j < r + 1 implies b[j] != x by {
                if j > 0 {
                    assert(b.skip(1)[j - 1] == b[j]);
                }
            }
        }
    }
}

/// The first line of the raw bytes, up to and including the first line
/// feed, or all of them when none occurs.
pub open spec fn first_line_bytes(b: Seq<u8>) -> Seq<u8> {
    let i = first_u8_idx(b, 10);
    if i < 0 {
        b
    } else {
        b.take(i + 1)
    }
}

/// The raw bytes after the first line.
pub open spec fn rest_bytes(b: Seq<u8>) -> Seq<u8> {
    let i = first_u8_idx(b, 10);
    if i < 0 {
        Seq::empty()
    } else {
        b.skip(i + 1)
    }
}

/// An ASCII blank as the encoding line spells it: space, tab, carriage
/// return or line feed.
pub open spec fn is_bspace(b: u8) -> bool {
    b == 32 || b == 9 || b == 13 || b == 10
}

/// The bytes without leading blanks.
pub open spec fn trim_start_b(s: Seq<u8>) -> Seq<u8>
    decreases s.len(),
{
    if s.len() > 0 && is_bspace(s[0]) {
        trim_start_b(s.skip(1))
    } else {
        s
    }
}

/// The bytes without trailing blanks.
pub open spec fn trim_end_b(s: Seq<u8>) -> Seq<u8>
    decreases s.len(),
{
    if s.len() > 0 && is_bspace(s[s.len() - 1]) {
        trim_end_b(s.drop_last())
    } else {
        s
    }
}

/// The bytes without leading or trailing blanks.
pub open spec fn trim_b(s: Seq<u8>) -> Seq<u8> {
    trim_end_b(trim_start_b(s))
}

proof fn lemma_trim_start_b_at(s: Seq<u8>, k: int)
    requires
        0 <= k <= s.len(),
        forall|j: int| 0 <= j < k ==> is_bspace(s[j]),
        k == s.len() || !is_bspace(s[k]),
    ensures
        trim_start_b(s) == s.skip(k),
    decreases k,
{
    if k == 0 {
        assert(s.skip(0) =~= s);
    } else {
        lemma_trim_start_b_at(s.skip(1), k - 1);
        assert(s.skip(1).skip(k - 1) =~= s.skip(k));
    }
}

proof fn lemma_trim_end_b_at(s: Seq<u8>, k: int)
    requires
        0 <= k <= s.len(),
        forall|j: int| k <= j < s.len() ==> is_bspace(s[j]),
        k == 0 || !is_bspace(s[k - 1]),
    ensures
        trim_end_b(s) == s.take(k),
    decreases s.len() - k,
{
    if k == s.len() {
        assert(s.take(k) =~= s);
    } else {
        lemma_trim_end_b_at(s.drop_last(), k);
        assert(s.drop_last().take(k) =~= s.take(k));
    }
}

/// The bytes spell the encoding declaration's key.
pub open spec fn is_encoding_key(k: Seq<u8>) -> bool {
    k.len() == 9 && k[0] == 46 && k[1] == 101 && k[2] == 110 && k[3] == 99 && k[4] == 111
        && k[5] == 100 && k[6] == 105 && k[7] == 110 && k[8] == 103
}

/// The label an encoding declaration line carries: the text after the
/// first `=`, both sides trimmed of blanks, the value's surrounding
/// quotes stripped when both are there, provided the key is the
/// declaration's.
pub open spec fn label_of_line(fl: Seq<u8>) -> Option<Seq<u8>> {
    let p = first_u8_idx(fl, 61);
    if p < 0 {
        None
    } else {
        let key = trim_b(fl.take(p));
        let v0 = trim_b(fl.skip(p + 1));
        let v = if v0.len() >= 2 && v0[0] == 34 && v0[v0.len() - 1] == 34 {
            v0.subrange(1, v0.len() - 1)
        } else {
            v0
        };
        if is_encoding_key(key) {
            Some(v)
        } else {
            None
        }
    }
}

/// The label the file's first line declares, if it is an encoding
/// declaration.
pub open spec fn encoding_label_of(b: Seq<u8>) -> Option<Seq<u8>> {
    label_of_line(first_line_bytes(b))
}

fn first_non_bspace(b: &[u8], from: usize, to: usize) -> (r: usize)
    requires
        from <= to <= b@.len(),
    ensures
        from <= r <= to,
        forall|j: int| from <= j < r ==> is_bspace(b@[j]),
        r == to || !is_bspace(b@[r as int]),
{
    let mut i: usize = from;
    while i < to
        invariant
            from <= i <= to <= b@.len(),
            forall|j: int| from <= j < i ==> is_bspace(b@[j]),
        decreases to - i,
    {
        let x = b[i];
        if !(x == 32 || x == 9 || x == 13 || x == 10) {
            return i;
        }
        i = i + 1;
    }
    i
}

fn last_non_bspace(b: &[u8], from: usize, to: usize) -> (r: usize)
    requires
        from <= to <= b@.len(),
    ensures
        from <= r <= to,
        forall|j: int| r <= j < to ==> is_bspace(b@[j]),
        r == from || !is_bspace(b@[r - 1]),
{
    let mut i: usize = to;
    while i > from
        invariant
            from <= i <= to <= b@.len(),
            forall|j: int| i <= j < to ==> is_bspace(b@[j]),
        decreases i,
    {
        let x = b[i - 1];
        if !(x == 32 || x == 9 || x == 13 || x == 10) {
            return i;
        }
        i = i - 1;
    }
    i
}

/// The label the first line of `fl` declares, executably.
fn extract_label(fl: &[u8]) -> (r: Option<Vec<u8>>)
    ensures
        match r {
            Some(l) => label_of_line(fl@) matches Some(q) && l@ == q,
            None => label_of_line(fl@) is None,
        },
{
    let fllen: usize = fl.len();
    let p = match find_byte(fl, 61) {
        Some(p) => p,
        None => {
            return None;
        },
    };
    let klo = first_non_bspace(fl, 0, p);
    let khi = last_non_bspace(fl, klo, p);
    proof {
        let key_raw = fl@.take(p as int);
        assert forall|j: int| 0 <= j < klo implies is_bspace(key_raw[j]) by {
            assert(key_raw[j] == fl@[j]);
        }
        assert(klo == p || !is_bspace(key_raw[klo as int]));
        lemma_trim_start_b_at(key_raw, klo as int);
        let key_mid = key_raw.skip(klo as int);
        assert forall|j: int| khi - klo <= j < key_mid.len() implies is_bspace(key_mid[j]) by {
            assert(key_mid[j] == fl@[klo + j]);
        }
        assert(khi - klo == 0 || !is_bspace(key_mid[khi - klo - 1]));
        lemma_trim_end_b_at(key_mid, khi - klo);
        assert(trim_b(key_raw) =~= fl@.subrange(klo as int, khi as int));
    }
    if !(khi - klo == 9 && fl[klo] == 46 && fl[klo + 1] == 101 && fl[klo + 2] == 110
        && fl[klo + 3] == 99 && fl[klo + 4] == 111 && fl[klo + 5] == 100 && fl[klo + 6] == 105
        && fl[klo + 7] == 110 && fl[klo + 8] == 103) {
        proof {
            if is_encoding_key(trim_b(fl@.take(p as int))) {
                assert(fl@.subrange(klo as int, khi as int)[0] == fl@[klo as int]);
                assert(fl@.subrange(klo as int, khi as int)[1] == fl@[klo + 1]);
                assert(fl@.subrange(klo as int, khi as int)[2] == fl@[klo + 2]);
                assert(fl@.subrange(klo as int, khi as int)[3] == fl@[klo + 3]);
                assert(fl@.subrange(klo as int, khi as int)[4] == fl@[klo + 4]);
                assert(fl@.subrange(klo as int, khi as int)[5] == fl@[klo + 5]);
                assert(fl@.subrange(klo as int, khi as int)[6] == fl@[klo + 6]);
                assert(fl@.subrange(klo as int, khi as int)[7] == fl@[klo + 7]);
                assert(fl@.subrange(klo as int, khi as int)[8] == fl@[klo + 8]);
            }
        }
        return None;
    }
    proof {
        assert(fl@.subrange(klo as int, khi as int)[0] == fl@[klo as int]);
        assert(fl@.subrange(klo as int, khi as int)[1] == fl@[klo + 1]);
        assert(fl@.subrange(klo as int, khi as int)[2] == fl@[klo + 2]);
        assert(fl@.subrange(klo as int, khi as int)[3] == fl@[klo + 3]);
        assert(fl@.subrange(klo as int, khi as int)[4] == fl@[klo + 4]);
        assert(fl@.subrange(klo as int, khi as int)[5] == fl@[klo + 5]);
        assert(fl@.subrange(klo as int, khi as int)[6] == fl@[klo + 6]);
        assert(fl@.subrange(klo as int, khi as int)[7] == fl@[klo + 7]);
        assert(fl@.subrange(klo as int, khi as int)[8] == fl@[klo + 8]);
        assert(is_encoding_key(trim_b(fl@.take(p as int))));
    }
    let vlo = first_non_bspace(fl, p + 1, fllen);
    let vhi = last_non_bspace(fl, vlo, fllen);
    proof {
        let val_raw = fl@.skip(p + 1);
        assert forall|j: int| 0 <= j < vlo - (p + 1) implies is_bspace(val_raw[j]) by {
            assert(val_raw[j] == fl@[p + 1 + j]);
        }
        assert(vlo - (p + 1) == val_raw.len() || !is_bspace(val_raw[vlo - (p + 1)]));
        lemma_trim_start_b_at(val_raw, vlo - (p + 1));
        let val_mid = val_raw.skip(vlo - (p + 1));
        assert forall|j: int| vhi - vlo <= j < val_mid.len() implies is_bspace(val_mid[j]) by {
            assert(val_mid[j] == fl@[vlo + j]);
        }
        assert(vhi - vlo == 0 || !is_bspace(val_mid[vhi - vlo - 1]));
        lemma_trim_end_b_at(val_mid, vhi - vlo);
        assert(trim_b(val_raw) =~= fl@.subrange(vlo as int, vhi as int));
    }
    if vhi - vlo >= 2 && fl[vlo] == 34 && fl[vhi - 1] == 34 {
        proof {
            let v0 = fl@.subrange(vlo as int, vhi as int);
            assert(v0[0] == fl@[vlo as int]);
            assert(v0[v0.len() - 1] == fl@[vhi - 1]);
            assert(v0.subrange(1, v0.len() - 1) =~= fl@.subrange(vlo + 1, vhi - 1));
        }
        Some(copy_byte_range(fl, vlo + 1, vhi - 1))
    } else {
        proof {
            let v0 = fl@.subrange(vlo as int, vhi as int);
            if v0.len() >= 2 {
                assert(v0[0] == fl@[vlo as int]);
                assert(v0[v0.len() - 1] == fl@[vhi - 1]);
            }
        }
        Some(copy_byte_range(fl, vlo, vhi))
    }
}

fn copy_byte_range(b: &[u8], from: usize, to: usize) -> (r: Vec<u8>)
    requires
        from <= to <= b@.len(),
    ensures
        r@ == b@.subrange(from as int, to as int),
{
    let mut r: Vec<u8> = Vec::new();
    let mut i: usize = from;
    proof {
        assert(r@ =~= b@.subrange(from as int, from as int));
    }
    while i < to
        invariant
            from <= i <= to <= b@.len(),
            r@ == b@.subrange(from as int, i as int),
        decreases to - i,
    {
        let ghost prev = r@;
        r.push(b[i]);
        proof {
            assert(r@ =~= b@.subrange(from as int, i + 1));
        }
        i = i + 1;
    }
    r
}

fn find_byte(b: &[u8], x: u8) -> (r: Option<usize>)
    ensures
        match r {
            Some(i) => i == first_u8_idx(b@, x) && i < b@.len() && b@[i as int] == x,
            None => first_u8_idx(b@, x) == -1,
        },
{
    proof {
        lemma_first_u8_idx(b@, x);
    }
    let n: usize = b.len();
    let mut i: usize = 0;
    while i < n
        invariant
            n == b@.len(),
            0 <= i <= n,
            forall|j: int| 0 <= j < i ==> b@[j] != x,
        decreases n - i,
    {
        if b[i] == x {
            proof {
                lemma_first_u8_idx(b@, x);
                let fi = first_u8_idx(b@, x);
                if fi == -1 {
                    assert(false);
                } else if fi < i {
                    assert(b@[fi] != x);
                    assert(false);
                } else if fi > i {
                    assert(b@[i as int] != x);
                    assert(false);
                }
            }
            return Some(i);
        }
        i = i + 1;
    }
    proof {
        lemma_first_u8_idx(b@, x);
        if first_u8_idx(b@, x) != -1 {
            assert(b@[first_u8_idx(b@, x)] == x);
            assert(false);
        }
    }
    None
}

/// Parses the decoded text of a per-user preference file: every
/// three-part key addressing a most-recently-used VM contributes to the
/// record of its index, recognized fields set the VM's path and name,
/// all other keys are ignored, and the records come out ordered by
/// index.
pub fn parse_preferences_text(s: &str) -> (r: Vec<Vm>)
    ensures
        r@.len() == prefs_of(PrefSchema::Preferences, s@).len(),
        forall|k: int|
            0 <= k < r@.len() ==> pref_vm_matches(
                #[trigger] r@[k],
                prefs_of(PrefSchema::Preferences, s@)[k],
            ),
{
    fold_pref_text(PrefSchema::Preferences, s)
}

/// Parses the decoded text of a VM inventory file: every two-part key
/// addressing a VM record contributes to the record of its index, the
/// records come out ordered by index, and a record whose path is present
/// but empty is dropped.
pub fn parse_inventory_text(s: &str) -> (r: Vec<Vm>)
    ensures
        r@.len() == filter_recs(prefs_of(PrefSchema::Inventory, s@)).len(),
        forall|k: int|
            0 <= k < r@.len() ==> pref_vm_matches(
                #[trigger] r@[k],
                filter_recs(prefs_of(PrefSchema::Inventory, s@))[k],
            ),
{
    let all = fold_pref_text(PrefSchema::Inventory, s);
    let ghost recs = prefs_of(PrefSchema::Inventory, s@);
    let n: usize = all.len();
    let mut out: Vec<Vm> = Vec::new();
    let mut i: usize = 0;
    proof {
        assert(recs.take(0) =~~= Seq::<PrefRec>::empty());
    }
    while i < n
        invariant
            n == all@.len(),
            n == recs.len(),
            forall|k: int| 0 <= k < n ==> pref_vm_matches(#[trigger] all@[k], recs[k]),
            0 <= i <= n,
            out@.len() == filter_recs(recs.take(i as int)).len(),
            forall|k: int|
                0 <= k < out@.len() ==> pref_vm_matches(
                    #[trigger] out@[k],
                    filter_recs(recs.take(i as int))[k],
                ),
        decreases n - i,
    {
        proof {
            lemma_filter_snoc(recs.take(i as int), recs[i as int]);
            assert(recs.take(i as int).push(recs[i as int]) =~~= recs.take(i + 1));
        }
        let keep = match &all[i].path {
            Some(p) => p.as_str().unicode_len() > 0,
            None => true,
        };
        if keep {
            out.push(all[i].clone());
        }
        i = i + 1;
    }
    proof {
        assert(recs.take(n as int) =~~= recs);
    }
    out
}

/// The records a whole inventory file denotes under its schema: the
/// decoded text's records, with the inventory's final filter applied.
pub open spec fn final_recs(schema: PrefSchema, text: Seq<char>) -> Seq<PrefRec> {
    match schema {
        PrefSchema::Preferences => prefs_of(schema, text),
        PrefSchema::Inventory => filter_recs(prefs_of(schema, text)),
    }
}

/// What the byte-level parsers return: nothing unless the first line
/// declares a known encoding and decoding the rest with it is clean; on
/// success, exactly the records of the decoded text under the schema.
pub open spec fn pref_bytes_spec(schema: PrefSchema, b: Seq<u8>, r: Option<Vec<Vm>>) -> bool {
    match encoding_label_of(b) {
        Some(lbl) => if known_encoding_label(lbl) && decoded(lbl, rest_bytes(b)).1 == false {
            let recs = final_recs(schema, decoded(lbl, rest_bytes(b)).0);
            r matches Some(v) && v@.len() == recs.len() && forall|k: int|
                0 <= k < recs.len() ==> pref_vm_matches(#[trigger] v@[k], recs[k])
        } else {
            r is None
        },
        None => r is None,
    }
}

/// Parses a per-user preference file from its raw bytes: the first line
/// must declare a known text encoding; the remaining bytes are decoded
/// with it and scanned as `parse_preferences_text` does. Returns nothing
/// when the declaration is missing or unknown, or when decoding had to
/// replace malformed input.
pub fn parse_preferences(bytes: &[u8]) -> (r: Option<Vec<Vm>>)
    ensures
        pref_bytes_spec(PrefSchema::Preferences, bytes@, r),
{
    parse_pref_bytes(bytes, PrefSchema::Preferences)
}

/// Parses a VM inventory file from its raw bytes, as `parse_preferences`
/// does but with the inventory schema and its final filter.
pub fn parse_inventory(bytes: &[u8]) -> (r: Option<Vec<Vm>>)
    ensures
        pref_bytes_spec(PrefSchema::Inventory, bytes@, r),
{
    parse_pref_bytes(bytes, PrefSchema::Inventory)
}

fn parse_pref_bytes(bytes: &[u8], schema: PrefSchema) -> (r: Option<Vec<Vm>>)
    ensures
        pref_bytes_spec(schema, bytes@, r),
{
    let blen: usize = bytes.len();
    let (fl, rest) = match find_byte(bytes, 10) {
        Some(i) => (copy_byte_range(bytes, 0, i + 1), copy_byte_range(bytes, i + 1, blen)),
        None => (copy_byte_range(bytes, 0, blen), Vec::new()),
    };
    proof {
        assert(bytes@.subrange(0, bytes@.len() as int) =~= bytes@);
        assert(fl@ == first_line_bytes(bytes@));
        assert(rest@ == rest_bytes(bytes@));
    }
    let lbl = match extract_label(fl.as_slice()) {
        Some(l) => l,
        None => {
            return None;
        },
    };
    let (text, had_errors) = match decode_with_label(lbl.as_slice(), rest.as_slice()) {
        Some(t) => t,
        None => {
            return None;
        },
    };
    if had_errors {
        return None;
    }
    match schema {
        PrefSchema::Preferences => Some(parse_preferences_text(text.as_str())),
        PrefSchema::Inventory => Some(parse_inventory_text(text.as_str())),
    }
}

} // verus!