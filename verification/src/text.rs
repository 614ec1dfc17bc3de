//! Verified text utilities: prefix/suffix/containment tests, line
//! splitting, trimming, decimal and hexadecimal conversion. Everything a
//! backend parser or command builder needs from plain strings, each with an
//! exact contract over the character sequence.
use vstd::prelude::*;
use vstd::string::*;

verus! {

/// `p` is a prefix of `s`.
pub open spec fn is_prefix_of(p: Seq<char>, s: Seq<char>) -> bool {
    p.len() <= s.len() && s.subrange(0, p.len() as int) == p
}

/// `p` is a suffix of `s`.
pub open spec fn is_suffix_of(p: Seq<char>, s: Seq<char>) -> bool {
    p.len() <= s.len() && s.subrange(s.len() - p.len(), s.len() as int) == p
}

/// `p` occurs in `s` starting at index `i`.
pub open spec fn contains_at(s: Seq<char>, i: int, p: Seq<char>) -> bool {
    0 <= i && i + p.len() <= s.len() && s.subrange(i, i + p.len()) == p
}

/// `p` occurs somewhere in `s`.
pub open spec fn contains_seq(s: Seq<char>, p: Seq<char>) -> bool {
    exists|i: int| contains_at(s, i, p)
}

/// Compares two string slices by their characters.
pub fn str_eq(a: &str, b: &str) -> (r: bool)
    ensures
        r == (a@ == b@),
{
    let alen: usize = a.unicode_len();
    let blen: usize = b.unicode_len();
    if alen != blen {
        return false;
    }
    let mut i: usize = 0;
    while i < alen
        invariant
            alen == a@.len(),
            alen == b@.len(),
            0 <= i <= alen,
            forall|j: int| 0 <= j < i ==> a@[j] == b@[j],
        decreases alen - i,
    {
        if a.get_char(i) != b.get_char(i) {
            return false;
        }
        i = i + 1;
    }
    proof {
        assert(a@ =~= b@);
    }
    true
}

/// True exactly when `s` starts with `p`.
pub fn starts_with_str(s: &str, p: &str) -> (r: bool)
    ensures
        r == is_prefix_of(p@, s@),
{
    let slen: usize = s.unicode_len();
    let plen: usize = p.unicode_len();
    if plen > slen {
        return false;
    }
    let mut i: usize = 0;
    while i < plen
        invariant
            slen == s@.len(),
            plen == p@.len(),
            plen <= slen,
            0 <= i <= plen,
            forall|j: int| 0 <= j < i ==> s@[j] == p@[j],
        decreases plen - i,
    {
        if s.get_char(i) != p.get_char(i) {
            proof {
                assert(s@.subrange(0, p@.len() as int)[i as int] == s@[i as int]);
            }
            return false;
        }
        i = i + 1;
    }
    proof {
        assert(s@.subrange(0, p@.len() as int) =~= p@);
    }
    true
}

/// True exactly when `s` ends with `p`.
pub fn ends_with_str(s: &str, p: &str) -> (r: bool)
    ensures
        r == is_suffix_of(p@, s@),
{
    let slen: usize = s.unicode_len();
    let plen: usize = p.unicode_len();
    if plen > slen {
        return false;
    }
    let off: usize = slen - plen;
    let mut i: usize = 0;
    while i < plen
        invariant
            slen == s@.len(),
            plen == p@.len(),
            plen <= slen,
            off == slen - plen,
            0 <= i <= plen,
            forall|j: int| 0 <= j < i ==> s@[off + j] == p@[j],
        decreases plen - i,
    {
        if s.get_char(off + i) != p.get_char(i) {
            proof {
                assert(s@.subrange(s@.len() - p@.len(), s@.len() as int)[i as int]
                    == s@[off + i]);
            }
            return false;
        }
        i = i + 1;
    }
    proof {
        assert(s@.subrange(s@.len() - p@.len(), s@.len() as int) =~= p@);
    }
    true
}

/// The rest of `s` after the prefix `p`, or `None` when `s` does not start
/// with `p`.
pub fn strip_prefix_str<'a>(s: &'a str, p: &str) -> (r: Option<&'a str>)
    ensures
        match r {
            Some(t) => is_prefix_of(p@, s@) && t@ == s@.subrange(
                p@.len() as int,
                s@.len() as int,
            ),
            None => !is_prefix_of(p@, s@),
        },
{
    if starts_with_str(s, p) {
        let slen: usize = s.unicode_len();
        let plen: usize = p.unicode_len();
        Some(s.substring_char(plen, slen))
    } else {
        None
    }
}

/// True exactly when `p` occurs somewhere in `s`.
pub fn contains_str(s: &str, p: &str) -> (r: bool)
    ensures
        r == contains_seq(s@, p@),
{
    let slen: usize = s.unicode_len();
    let plen: usize = p.unicode_len();
    if plen > slen {
        proof {
            assert(forall|i: int| !contains_at(s@, i, p@));
        }
        return false;
    }
    if plen == 0 {
        proof {
            assert(s@.subrange(0, 0) =~= p@);
            assert(contains_at(s@, 0, p@));
        }
        return true;
    }
    let mut i: usize = 0;
    while i <= slen - plen
        invariant
            slen == s@.len(),
            plen == p@.len(),
            0 < plen <= slen,
            0 <= i <= slen - plen + 1,
            forall|k: int| 0 <= k < i ==> !contains_at(s@, k, p@),
        decreases slen - plen + 1 - i,
    {
        let piece = s.substring_char(i, i + plen);
        if str_eq(piece, p) {
            proof {
                assert(contains_at(s@, i as int, p@));
            }
            return true;
        }
        i = i + 1;
    }
    proof {
        assert(forall|k: int| contains_at(s@, k, p@) ==> 0 <= k <= slen - plen);
    }
    false
}

/// The index of the first occurrence of `c` in `s`, if any.
pub fn find_char(s: &str, c: char) -> (r: Option<usize>)
    ensures
        match r {
            Some(i) => i < s@.len() && s@[i as int] == c && forall|j: int|
                0 <= j < i ==> s@[j] != c,
            None => forall|j: int| 0 <= j < s@.len() ==> s@[j] != c,
        },
{
    let slen: usize = s.unicode_len();
    let mut i: usize = 0;
    while i < slen
        invariant
            slen == s@.len(),
            0 <= i <= slen,
            forall|j: int| 0 <= j < i ==> s@[j] != c,
        decreases slen - i,
    {
        if s.get_char(i) == c {
            return Some(i);
        }
        i = i + 1;
    }
    None
}

/// The index of the last occurrence of `c` in `s`, if any.
pub fn rfind_char(s: &str, c: char) -> (r: Option<usize>)
    ensures
        match r {
            Some(i) => i < s@.len() && s@[i as int] == c && forall|j: int|
                i < j < s@.len() ==> s@[j] != c,
            None => forall|j: int| 0 <= j < s@.len() ==> s@[j] != c,
        },
{
    let slen: usize = s.unicode_len();
    let mut i: usize = slen;
    while i > 0
        invariant
            slen == s@.len(),
            0 <= i <= slen,
            forall|j: int| i <= j < slen ==> s@[j] != c,
        decreases i,
    {
        i = i - 1;
        if s.get_char(i) == c {
            return Some(i);
        }
    }
    None
}

/// The index of the first occurrence of `c` in `l`, or `-1` when `c` does
/// not occur.
pub open spec fn first_idx_of(l: Seq<char>, c: char) -> int
    decreases l.len(),
{
    if l.len() == 0 {
        -1
    } else if l[0] == c {
        0
    } else {
        let r = first_idx_of(l.skip(1), c);
        if r < 0 {
            -1
        } else {
            r + 1
        }
    }
}

/// The index of the last occurrence of `c` in `l`, or `-1` when `c` does
/// not occur.
pub open spec fn last_idx_of(l: Seq<char>, c: char) -> int
    decreases l.len(),
{
    if l.len() == 0 {
        -1
    } else if l[l.len() - 1] == c {
        l.len() - 1
    } else {
        last_idx_of(l.drop_last(), c)
    }
}

pub proof fn lemma_first_idx_of(l: Seq<char>, c: char)
    ensures
        first_idx_of(l, c) == -1 ==> forall|j: int| 0 <= j < l.len() ==> l[j] != c,
        first_idx_of(l, c) != -1 ==> {
            let i = first_idx_of(l, c);
            0 <= i < l.len() && l[i] == c && forall|j: int| 0 <= j < i ==> l[j] != c
        },
    decreases l.len(),
{
    if l.len() > 0 && l[0] != c {
        lemma_first_idx_of(l.skip(1), c);
        let r = first_idx_of(l.skip(1), c);
        if r == -1 {
            assert forall|j: int| 0 <= j < l.len() implies l[j] != c by {
                if j > 0 {
                    assert(l.skip(1)[j - 1] == l[j]);
                }
            }
        } else {
            assert(l.skip(1)[r] == l[r + 1]);
            assert forall|j: int| 0 <= j < r + 1 implies l[j] != c by {
                if j > 0 {
                    assert(l.skip(1)[j - 1] == l[j]);
                }
            }
        }
    }
}

/// The first occurrence of `c` is at `k` exactly when `c` stands at `k`
/// and nowhere before.
pub proof fn lemma_first_idx_is(l: Seq<char>, c: char, k: int)
    requires
        0 <= k < l.len(),
        l[k] == c,
        forall|j: int| 0 <= j < k ==> l[j] != c,
    ensures
        first_idx_of(l, c) == k,
{
    lemma_first_idx_of(l, c);
    let i = first_idx_of(l, c);
    if i == -1 {
        assert(l[k] == c);
        assert(false);
    } else if i < k {
        assert(l[i] != c);
        assert(false);
    } else if i > k {
        assert(l[k] != c);
        assert(false);
    }
}

/// The last occurrence of `c` is at `k` exactly when `c` stands at `k`
/// and nowhere after.
pub proof fn lemma_last_idx_is(l: Seq<char>, c: char, k: int)
    requires
        0 <= k < l.len(),
        l[k] == c,
        forall|j: int| k < j < l.len() ==> l[j] != c,
    ensures
        last_idx_of(l, c) == k,
{
    lemma_last_idx_of(l, c);
    let i = last_idx_of(l, c);
    if i == -1 {
        assert(l[k] == c);
        assert(false);
    } else if i < k {
        assert(l[k] != c);
        assert(false);
    } else if i > k {
        assert(l[i] != c);
        assert(false);
    }
}

pub proof fn lemma_last_idx_of(l: Seq<char>, c: char)
    ensures
        last_idx_of(l, c) == -1 ==> forall|j: int| 0 <= j < l.len() ==> l[j] != c,
        last_idx_of(l, c) != -1 ==> {
            let i = last_idx_of(l, c);
            0 <= i < l.len() && l[i] == c && forall|j: int| i < j < l.len() ==> l[j] != c
        },
    decreases l.len(),
{
    if l.len() > 0 && l[l.len() - 1] != c {
        lemma_last_idx_of(l.drop_last(), c);
        let r = last_idx_of(l.drop_last(), c);
        if r == -1 {
            assert forall|j: int| 0 <= j < l.len() implies l[j] != c by {
                if j < l.len() - 1 {
                    assert(l.drop_last()[j] == l[j]);
                }
            }
        } else {
            assert(l.drop_last()[r] == l[r]);
            assert forall|j: int| r < j < l.len() implies l[j] != c by {
                if j < l.len() - 1 {
                    assert(l.drop_last()[j] == l[j]);
                }
            }
        }
    }
}

/// `a` read case-insensitively equals the lowercase character `b`: either
/// they are the same character, or `a` is the ASCII uppercase of `b`.
pub open spec fn ci_eq(a: char, b: char) -> bool {
    a == b || (65 <= a as int <= 90 && b as int == a as int + 32)
}

/// `s` starts with `p` when ASCII case in `s` is ignored; `p` is given in
/// lowercase.
pub open spec fn is_ci_prefix(p: Seq<char>, s: Seq<char>) -> bool {
    p.len() <= s.len() && forall|j: int| 0 <= j < p.len() ==> ci_eq(s[j], p[j])
}

/// True exactly when `s` starts with `p`, ignoring ASCII case in `s`;
/// `p` must be lowercase.
pub fn starts_with_ci(s: &str, p: &str) -> (r: bool)
    ensures
        r == is_ci_prefix(p@, s@),
{
    let slen: usize = s.unicode_len();
    let plen: usize = p.unicode_len();
    if plen > slen {
        return false;
    }
    let mut i: usize = 0;
    while i < plen
        invariant
            slen == s@.len(),
            plen == p@.len(),
            plen <= slen,
            0 <= i <= plen,
            forall|j: int| 0 <= j < i ==> ci_eq(s@[j], p@[j]),
        decreases plen - i,
    {
        let a = s.get_char(i);
        let b = p.get_char(i);
        let av = a as u32;
        let bv = b as u32;
        if !(a == b || (av >= 65 && av <= 90 && bv == av + 32)) {
            return false;
        }
        i = i + 1;
    }
    true
}

/// A carriage return directly before a line feed is dropped from the line.
pub open spec fn strip_cr(l: Seq<char>) -> Seq<char> {
    if l.len() > 0 && l[l.len() - 1] == '\r' {
        l.drop_last()
    } else {
        l
    }
}

/// The lines of `s` after the characters `cur` have already been read:
/// a line feed emits the pending text (with a trailing carriage return
/// dropped), the end of input emits whatever is pending, and a final empty
/// piece is not a line.
pub open spec fn lines_from(s: Seq<char>, cur: Seq<char>) -> Seq<Seq<char>>
    decreases s.len(),
{
    if s.len() == 0 {
        if cur.len() == 0 {
            Seq::empty()
        } else {
            seq![cur]
        }
    } else if s[0] == '\n' {
        seq![strip_cr(cur)] + lines_from(s.skip(1), Seq::empty())
    } else {
        lines_from(s.skip(1), cur.push(s[0]))
    }
}

/// The lines of `s`, split on line feeds, each line stripped of a trailing
/// carriage return.
pub open spec fn lines_spec(s: Seq<char>) -> Seq<Seq<char>> {
    lines_from(s, Seq::empty())
}

pub proof fn lemma_lines_from_nonempty(s: Seq<char>, cur: Seq<char>)
    requires
        s.len() > 0 || cur.len() > 0,
    ensures
        lines_from(s, cur).len() > 0,
    decreases s.len(),
{
    if s.len() > 0 && s[0] != '\n' {
        lemma_lines_from_nonempty(s.skip(1), cur.push(s[0]));
    }
}

/// A nonempty text has at least one line.
pub proof fn lemma_lines_nonempty(s: Seq<char>)
    requires
        s.len() > 0,
    ensures
        lines_spec(s).len() > 0,
{
    lemma_lines_from_nonempty(s, Seq::empty());
}

/// Splits `s` into its lines.
pub fn split_lines(s: &str) -> (r: Vec<String>)
    ensures
        r.deep_view() == lines_spec(s@),
{
    let slen: usize = s.unicode_len();
    let mut r: Vec<String> = Vec::new();
    let mut start: usize = 0;
    let mut i: usize = 0;
    proof {
        assert(s@.skip(0) =~= s@);
        assert(s@.subrange(0, 0) =~= Seq::<char>::empty());
        assert(r.deep_view() =~= Seq::<Seq<char>>::empty());
    }
    while i < slen
        invariant
            slen == s@.len(),
            0 <= start <= i <= slen,
            forall|j: int| start <= j < i ==> s@[j] != '\n',
            r.deep_view() + lines_from(s@.skip(i as int), s@.subrange(start as int, i as int))
                == lines_spec(s@),
        decreases slen - i,
    {
        let c = s.get_char(i);
        if c == '\n' {
            let line_end: usize = if i > start && s.get_char(i - 1) == '\r' {
                i - 1
            } else {
                i
            };
            let line = s.substring_char(start, line_end);
            proof {
                let cur = s@.subrange(start as int, i as int);
                assert(line@ =~= strip_cr(cur));
                assert(s@.skip(i as int)[0] == '\n');
                assert(s@.skip(i as int).skip(1) =~= s@.skip(i + 1));
                assert(s@.subrange(start as int, i as int).push(s@[i as int]) =~= s@.subrange(
                    start as int,
                    i + 1,
                ));
            }
            let ghost prev = r.deep_view();
            r.push(line.to_owned());
            proof {
                assert(r.deep_view() =~= prev.push(line@));
                assert(s@.subrange(i + 1, i + 1) =~= Seq::<char>::empty());
            }
            start = i + 1;
        } else {
            proof {
                assert(s@.skip(i as int)[0] == s@[i as int]);
                assert(s@.skip(i as int).skip(1) =~= s@.skip(i + 1));
                assert(s@.subrange(start as int, i as int).push(s@[i as int]) =~= s@.subrange(
                    start as int,
                    i + 1,
                ));
            }
        }
        i = i + 1;
    }
    if start < slen {
        let line = s.substring_char(start, slen);
        proof {
            assert(s@.skip(slen as int).len() == 0);
            assert(line@ =~= s@.subrange(start as int, slen as int));
        }
        let ghost prev = r.deep_view();
        r.push(line.to_owned());
        proof {
            assert(r.deep_view() =~= prev.push(line@));
        }
    } else {
        proof {
            assert(s@.skip(slen as int).len() == 0);
            assert(s@.subrange(start as int, slen as int).len() == 0);
        }
    }
    r
}

/// Reading text that starts with newline-free characters `a` just moves
/// them onto the pending line.
pub proof fn lemma_lines_from_append(a: Seq<char>, rest: Seq<char>, cur: Seq<char>)
    requires
        forall|j: int| 0 <= j < a.len() ==> a[j] != '\n',
    ensures
        lines_from(a + rest, cur) == lines_from(rest, cur + a),
    decreases a.len(),
{
    if a.len() == 0 {
        assert(a + rest =~= rest);
        assert(cur + a =~= cur);
    } else {
        assert((a + rest)[0] == a[0]);
        assert((a + rest).skip(1) =~= a.skip(1) + rest);
        lemma_lines_from_append(a.skip(1), rest, cur.push(a[0]));
        assert(cur.push(a[0]) + a.skip(1) =~= cur + a);
    }
}

/// Every line of a text that ends in a line feed is flushed by that line
/// feed, so reading continues independently after it.
pub proof fn lemma_lines_split_at_nl(x: Seq<char>, b: Seq<char>, cur: Seq<char>)
    requires
        x.len() > 0,
        x[x.len() - 1] == '\n',
    ensures
        lines_from(x + b, cur) == lines_from(x, cur) + lines_from(b, Seq::empty()),
    decreases x.len(),
{
    if x.len() == 1 {
        assert((x + b)[0] == '\n');
        assert((x + b).skip(1) =~= b);
        assert(x.skip(1) =~= Seq::<char>::empty());
        assert(lines_from(Seq::<char>::empty(), Seq::<char>::empty())
            =~~= Seq::<Seq<char>>::empty());
        assert(lines_from(x, cur) == seq![strip_cr(cur)] + lines_from(
            Seq::<char>::empty(),
            Seq::<char>::empty(),
        ));
        assert(lines_from(x, cur) =~~= seq![strip_cr(cur)]);
    } else {
        assert((x + b)[0] == x[0]);
        assert((x + b).skip(1) =~= x.skip(1) + b);
        assert(x.skip(1)[x.skip(1).len() - 1] == '\n');
        if x[0] == '\n' {
            lemma_lines_split_at_nl(x.skip(1), b, Seq::empty());
        } else {
            lemma_lines_split_at_nl(x.skip(1), b, cur.push(x[0]));
        }
    }
}

/// A line feed after a text whose last character ends no line (neither a
/// line feed nor a carriage return) adds nothing: the final piece was a
/// line either way.
pub proof fn lemma_lines_trailing_nl(x: Seq<char>, cur: Seq<char>)
    requires
        x.len() > 0,
        x[x.len() - 1] != '\n',
        x[x.len() - 1] != '\r',
    ensures
        lines_from(x + seq!['\n'], cur) == lines_from(x, cur),
    decreases x.len(),
{
    let xn = x + seq!['\n'];
    assert(xn[0] == x[0]);
    if x.len() == 1 {
        assert(xn.skip(1) =~= seq!['\n']);
        if x[0] == '\n' {
        } else {
            assert(lines_from(xn, cur) == lines_from(seq!['\n'], cur.push(x[0])));
            assert(seq!['\n'].skip(1) =~= Seq::<char>::empty());
            assert(seq!['\n'][0] == '\n');
            assert(lines_from(Seq::<char>::empty(), Seq::<char>::empty())
                =~~= Seq::<Seq<char>>::empty());
            assert(lines_from(seq!['\n'], cur.push(x[0])) == seq![strip_cr(cur.push(x[0]))]
                + lines_from(Seq::<char>::empty(), Seq::<char>::empty()));
            assert(lines_from(seq!['\n'], cur.push(x[0])) =~~= seq![strip_cr(cur.push(x[0]))]);
            assert(strip_cr(cur.push(x[0])) =~= cur.push(x[0]));
            assert(x.skip(1) =~= Seq::<char>::empty());
            assert(lines_from(x, cur) == lines_from(Seq::<char>::empty(), cur.push(x[0])));
        }
    } else {
        assert(xn.skip(1) =~= x.skip(1) + seq!['\n']);
        assert(x.skip(1)[x.skip(1).len() - 1] == x[x.len() - 1]);
        if x[0] == '\n' {
            lemma_lines_trailing_nl(x.skip(1), Seq::empty());
        } else {
            lemma_lines_trailing_nl(x.skip(1), cur.push(x[0]));
        }
    }
}

/// A newline-free text followed by a line feed reads as exactly one
/// line.
pub proof fn lemma_lines_one_line(a: Seq<char>, cur: Seq<char>)
    requires
        forall|j: int| 0 <= j < a.len() ==> a[j] != '\n',
    ensures
        lines_from(a + seq!['\n'], cur) =~~= seq![strip_cr(cur + a)],
{
    lemma_lines_from_append(a, seq!['\n'], cur);
    assert(seq!['\n'][0] == '\n');
    assert(seq!['\n'].skip(1) =~= Seq::<char>::empty());
    assert(lines_from(Seq::<char>::empty(), Seq::<char>::empty()) =~~= Seq::<Seq<char>>::empty());
    assert(lines_from(seq!['\n'], cur + a) =~~= seq![strip_cr(cur + a)]);
}

/// Being a prefix is transitive.
pub proof fn lemma_prefix_trans(p: Seq<char>, q: Seq<char>, s: Seq<char>)
    requires
        is_prefix_of(p, q),
        is_prefix_of(q, s),
    ensures
        is_prefix_of(p, s),
{
    assert(s.subrange(0, p.len() as int) =~= q.subrange(0, p.len() as int));
}

/// ASCII whitespace, the only kind the backends emit around their text.
pub open spec fn is_wspace(c: char) -> bool {
    c == ' ' || c == '\t' || c == '\r' || c == '\n'
}

/// `s` without leading whitespace.
pub open spec fn trim_start_spec(s: Seq<char>) -> Seq<char>
    decreases s.len(),
{
    if s.len() > 0 && is_wspace(s[0]) {
        trim_start_spec(s.skip(1))
    } else {
        s
    }
}

/// `s` without trailing whitespace.
pub open spec fn trim_end_spec(s: Seq<char>) -> Seq<char>
    decreases s.len(),
{
    if s.len() > 0 && is_wspace(s[s.len() - 1]) {
        trim_end_spec(s.drop_last())
    } else {
        s
    }
}

/// `s` without leading or trailing whitespace.
pub open spec fn trim_spec(s: Seq<char>) -> Seq<char> {
    trim_end_spec(trim_start_spec(s))
}

proof fn lemma_trim_end_first(x: Seq<char>)
    requires
        x.len() > 0,
        !is_wspace(x[0]),
    ensures
        trim_end_spec(x).len() > 0,
        trim_end_spec(x)[0] == x[0],
    decreases x.len(),
{
    if is_wspace(x[x.len() - 1]) {
        assert(x.len() >= 2);
        assert(x.drop_last()[0] == x[0]);
        lemma_trim_end_first(x.drop_last());
    }
}

/// Trimming keeps the first character when it is not whitespace.
pub proof fn lemma_trim_first_char(x: Seq<char>)
    requires
        x.len() > 0,
        !is_wspace(x[0]),
    ensures
        trim_spec(x).len() > 0,
        trim_spec(x)[0] == x[0],
{
    lemma_trim_end_first(x);
}

proof fn lemma_trim_start_at(s: Seq<char>, k: int)
    requires
        0 <= k <= s.len(),
        forall|j: int| 0 <= j < k ==> is_wspace(s[j]),
        k == s.len() || !is_wspace(s[k]),
    ensures
        trim_start_spec(s) == s.skip(k),
    decreases k,
{
    if k == 0 {
        assert(s.skip(0) =~= s);
    } else {
        lemma_trim_start_at(s.skip(1), k - 1);
        assert(s.skip(1).skip(k - 1) =~= s.skip(k));
    }
}

proof fn lemma_trim_end_at(s: Seq<char>, k: int)
    requires
        0 <= k <= s.len(),
        forall|j: int| k <= j < s.len() ==> is_wspace(s[j]),
        k == 0 || !is_wspace(s[k - 1]),
    ensures
        trim_end_spec(s) == s.take(k),
    decreases s.len() - k,
{
    if k == s.len() {
        assert(s.take(k) =~= s);
    } else {
        lemma_trim_end_at(s.drop_last(), k);
        assert(s.drop_last().take(k) =~= s.take(k));
    }
}

fn first_non_wspace(s: &str) -> (r: usize)
    ensures
        r <= s@.len(),
        forall|j: int| 0 <= j < r ==> is_wspace(s@[j]),
        r == s@.len() || !is_wspace(s@[r as int]),
{
    let slen: usize = s.unicode_len();
    let mut lo: usize = 0;
    while lo < slen
        invariant
            slen == s@.len(),
            0 <= lo <= slen,
            forall|j: int| 0 <= j < lo ==> is_wspace(s@[j]),
        decreases slen - lo,
    {
        let c = s.get_char(lo);
        if !(c == ' ' || c == '\t' || c == '\r' || c == '\n') {
            return lo;
        }
        lo = lo + 1;
    }
    lo
}

fn last_non_wspace_after(s: &str, lo: usize) -> (r: usize)
    requires
        lo <= s@.len(),
    ensures
        lo <= r <= s@.len(),
        forall|j: int| r <= j < s@.len() ==> is_wspace(s@[j]),
        r == lo || !is_wspace(s@[r - 1]),
{
    let slen: usize = s.unicode_len();
    let mut hi: usize = slen;
    while hi > lo
        invariant
            slen == s@.len(),
            lo <= hi <= slen,
            forall|j: int| hi <= j < slen ==> is_wspace(s@[j]),
        decreases hi,
    {
        let c = s.get_char(hi - 1);
        if !(c == ' ' || c == '\t' || c == '\r' || c == '\n') {
            return hi;
        }
        hi = hi - 1;
    }
    hi
}

/// `s` without leading or trailing ASCII whitespace.
pub fn trim_str<'a>(s: &'a str) -> (r: &'a str)
    ensures
        r@ == trim_spec(s@),
{
    let slen: usize = s.unicode_len();
    let lo = first_non_wspace(s);
    let hi = last_non_wspace_after(s, lo);
    proof {
        lemma_trim_start_at(s@, lo as int);
    }
    let r = s.substring_char(lo, hi);
    proof {
        let t = s@.skip(lo as int);
        lemma_trim_end_at(t, hi - lo);
        assert(t.take(hi - lo) =~= s@.subrange(lo as int, hi as int));
    }
    r
}

/// The numeric value of an ASCII digit.
pub open spec fn digit_of(c: char) -> int {
    c as int - 48
}

/// `c` is an ASCII digit.
pub open spec fn is_ascii_digit(c: char) -> bool {
    48 <= c as int <= 57
}

/// All characters of `s` are ASCII digits.
pub open spec fn all_digits(s: Seq<char>) -> bool {
    forall|i: int| 0 <= i < s.len() ==> is_ascii_digit(s[i])
}

/// The number denoted by the digit string `s`, most significant first.
pub open spec fn digits_val(s: Seq<char>) -> int
    decreases s.len(),
{
    if s.len() == 0 {
        0
    } else {
        digits_val(s.drop_last()) * 10 + digit_of(s.last())
    }
}

proof fn lemma_digits_val_nonneg(s: Seq<char>)
    requires
        all_digits(s),
    ensures
        digits_val(s) >= 0,
    decreases s.len(),
{
    if s.len() > 0 {
        lemma_digits_val_nonneg(s.drop_last());
    }
}

proof fn lemma_digits_val_take_le(s: Seq<char>, i: int)
    requires
        all_digits(s),
        0 <= i <= s.len(),
    ensures
        digits_val(s.take(i)) <= digits_val(s),
    decreases s.len() - i,
{
    if i == s.len() {
        assert(s.take(i) =~= s);
    } else {
        lemma_digits_val_take_le(s, i + 1);
        let t = s.take(i + 1);
        assert(t.drop_last() =~= s.take(i));
        assert(t.last() == s[i]);
        lemma_digits_val_nonneg(s.take(i));
        assert(digits_val(s.take(i)) <= digits_val(s.take(i + 1)));
    }
}

/// Parses `s` as an unsigned decimal number. Returns `None` when `s` is
/// empty, contains a non-digit, or denotes a value above `u64::MAX`.
pub fn parse_dec_u64(s: &str) -> (r: Option<u64>)
    ensures
        match r {
            Some(n) => s@.len() > 0 && all_digits(s@) && n == digits_val(s@),
            None => s@.len() == 0 || !all_digits(s@) || digits_val(s@) > u64::MAX,
        },
{
    let slen: usize = s.unicode_len();
    if slen == 0 {
        return None;
    }
    let mut acc: u64 = 0;
    let mut i: usize = 0;
    proof {
        assert(s@.take(0) =~= Seq::<char>::empty());
    }
    while i < slen
        invariant
            slen == s@.len(),
            0 <= i <= slen,
            all_digits(s@.take(i as int)),
            acc == digits_val(s@.take(i as int)),
        decreases slen - i,
    {
        let c = s.get_char(i);
        let v = c as u32;
        if !(v >= 48 && v <= 57) {
            return None;
        }
        let d: u64 = (v - 48) as u64;
        let step = match acc.checked_mul(10) {
            Some(x) => x.checked_add(d),
            None => None,
        };
        proof {
            let t = s@.take(i + 1);
            assert(t.drop_last() =~= s@.take(i as int));
            assert(t.last() == s@[i as int]);
        }
        match step {
            Some(x) => {
                acc = x;
            },
            None => {
                proof {
                    if all_digits(s@) {
                        lemma_digits_val_take_le(s@, i + 1);
                    }
                }
                return None;
            },
        }
        i = i + 1;
    }
    proof {
        assert(s@.take(slen as int) =~= s@);
    }
    Some(acc)
}

/// The ASCII digit for a value below ten.
pub open spec fn digit_char(d: int) -> char {
    if d == 0 {
        '0'
    } else if d == 1 {
        '1'
    } else if d == 2 {
        '2'
    } else if d == 3 {
        '3'
    } else if d == 4 {
        '4'
    } else if d == 5 {
        '5'
    } else if d == 6 {
        '6'
    } else if d == 7 {
        '7'
    } else if d == 8 {
        '8'
    } else {
        '9'
    }
}

/// The decimal spelling of `n`, most significant digit first.
pub open spec fn dec_spec(n: int) -> Seq<char>
    decreases n,
{
    if n < 10 {
        seq![digit_char(n)]
    } else {
        dec_spec(n / 10).push(digit_char(n % 10))
    }
}

fn digit_str(d: u64) -> (r: &'static str)
    requires
        d < 10,
    ensures
        r@ =~= seq![digit_char(d as int)],
{
    proof {
        reveal_strlit("0");
        reveal_strlit("1");
        reveal_strlit("2");
        reveal_strlit("3");
        reveal_strlit("4");
        reveal_strlit("5");
        reveal_strlit("6");
        reveal_strlit("7");
        reveal_strlit("8");
        reveal_strlit("9");
    }
    if d == 0 {
        "0"
    } else if d == 1 {
        "1"
    } else if d == 2 {
        "2"
    } else if d == 3 {
        "3"
    } else if d == 4 {
        "4"
    } else if d == 5 {
        "5"
    } else if d == 6 {
        "6"
    } else if d == 7 {
        "7"
    } else if d == 8 {
        "8"
    } else {
        "9"
    }
}

/// Formats `n` in decimal.
pub fn fmt_u64(n: u64) -> (r: String)
    ensures
        r@ == dec_spec(n as int),
    decreases n,
{
    if n < 10 {
        let r = digit_str(n).to_owned();
        r
    } else {
        let q = fmt_u64(n / 10);
        let r = q.concat(digit_str(n % 10));
        proof {
            assert(r@ =~= dec_spec((n / 10) as int).push(digit_char((n % 10) as int)));
        }
        r
    }
}

/// The lowercase hexadecimal digit for a value below sixteen.
pub open spec fn hex_char(d: int) -> char {
    if d < 10 {
        digit_char(d)
    } else if d == 10 {
        'a'
    } else if d == 11 {
        'b'
    } else if d == 12 {
        'c'
    } else if d == 13 {
        'd'
    } else if d == 14 {
        'e'
    } else {
        'f'
    }
}

/// The lowercase hexadecimal spelling of `n`, without leading zeroes.
pub open spec fn hex_spec(n: int) -> Seq<char>
    decreases n,
{
    if n < 16 {
        seq![hex_char(n)]
    } else {
        hex_spec(n / 16).push(hex_char(n % 16))
    }
}

pub(crate) fn hex_digit_str(d: u8) -> (r: &'static str)
    requires
        d < 16,
    ensures
        r@ =~= seq![hex_char(d as int)],
{
    proof {
        reveal_strlit("a");
        reveal_strlit("b");
        reveal_strlit("c");
        reveal_strlit("d");
        reveal_strlit("e");
        reveal_strlit("f");
    }
    if d < 10 {
        digit_str(d as u64)
    } else if d == 10 {
        "a"
    } else if d == 11 {
        "b"
    } else if d == 12 {
        "c"
    } else if d == 13 {
        "d"
    } else if d == 14 {
        "e"
    } else {
        "f"
    }
}

/// Formats `n` in lowercase hexadecimal without leading zeroes, as a
/// script host's scancode argument expects it.
pub fn fmt_hex_u8(n: u8) -> (r: String)
    ensures
        r@ == hex_spec(n as int),
{
    if n < 16 {
        hex_digit_str(n).to_owned()
    } else {
        let q = hex_digit_str(n / 16).to_owned();
        let r = q.concat(hex_digit_str(n % 16));
        proof {
            assert(r@ =~= hex_spec((n / 16) as int).push(hex_char((n % 16) as int)));
        }
        r
    }
}

/// The character sequences of a slice of string slices, in order.
pub open spec fn strs_view(args: Seq<&str>) -> Seq<Seq<char>> {
    Seq::new(args.len(), |i: int| args[i]@)
}

/// Appends every string of `args` to `v`, owned.
pub(crate) fn push_strs(v: &mut Vec<String>, args: &[&str])
    ensures
        final(v).deep_view() == old(v).deep_view() + strs_view(args@),
{
    let ghost base = v.deep_view();
    let mut i: usize = 0;
    proof {
        assert(v.deep_view() =~~= base + Seq::new(0 as nat, |k: int| args@[k]@));
    }
    while i < args.len()
        invariant
            0 <= i <= args@.len(),
            v.deep_view() == base + Seq::new(i as nat, |k: int| args@[k]@),
        decreases args@.len() - i,
    {
        let ghost prev = v.deep_view();
        v.push(args[i].to_owned());
        proof {
            assert(v.deep_view() =~~= prev.push(args@[i as int]@));
            assert(v.deep_view() =~~= base + Seq::new((i + 1) as nat, |k: int| args@[k]@));
        }
        i = i + 1;
    }
    proof {
        assert(base + Seq::new(args@.len(), |k: int| args@[k]@) =~~= base + strs_view(args@));
    }
}

/// The index of the first occurrence of `p` in `s`, or `-1` when `p`
/// does not occur.
pub open spec fn find_sub_idx(s: Seq<char>, p: Seq<char>) -> int
    decreases s.len(),
{
    if p.len() > s.len() {
        -1
    } else if s.subrange(0, p.len() as int) == p {
        0
    } else if s.len() == 0 {
        -1
    } else {
        let r = find_sub_idx(s.skip(1), p);
        if r < 0 {
            -1
        } else {
            r + 1
        }
    }
}

pub proof fn lemma_find_sub_idx(s: Seq<char>, p: Seq<char>)
    ensures
        find_sub_idx(s, p) == -1 ==> forall|i: int| !contains_at(s, i, p),
        find_sub_idx(s, p) != -1 ==> {
            let i = find_sub_idx(s, p);
            0 <= i && contains_at(s, i, p) && forall|j: int| 0 <= j < i ==> !contains_at(s, j, p)
        },
    decreases s.len(),
{
    if p.len() > s.len() {
        assert(forall|i: int| !contains_at(s, i, p));
    } else if s.subrange(0, p.len() as int) == p {
        assert(contains_at(s, 0, p));
    } else if s.len() == 0 {
        assert(p.len() == 0 && s.subrange(0, 0) =~= p);
        assert(false);
    } else {
        lemma_find_sub_idx(s.skip(1), p);
        let r = find_sub_idx(s.skip(1), p);
        assert(!contains_at(s, 0, p));
        assert forall|j: int| 1 <= j && j + p.len() <= s.len() implies (contains_at(s, j, p)
            <==> contains_at(s.skip(1), j - 1, p)) by {
            assert(s.skip(1).subrange(j - 1, j - 1 + p.len() as int) =~= s.subrange(
                j,
                j + p.len() as int,
            ));
        }
        if r == -1 {
            assert forall|i: int| true implies !contains_at(s, i, p) by {
                if 1 <= i && i + p.len() <= s.len() {
                    assert(!contains_at(s.skip(1), i - 1, p));
                }
            }
        } else {
            assert(contains_at(s.skip(1), r, p));
            assert(contains_at(s, r + 1, p));
            assert forall|j: int| 0 <= j < r + 1 implies !contains_at(s, j, p) by {
                if j >= 1 {
                    assert(!contains_at(s.skip(1), j - 1, p));
                }
            }
        }
    }
}

/// The index of the first occurrence of `p` in `s`, if any.
pub fn find_str(s: &str, p: &str) -> (r: Option<usize>)
    ensures
        match r {
            Some(i) => i == find_sub_idx(s@, p@) && contains_at(s@, i as int, p@),
            None => find_sub_idx(s@, p@) == -1,
        },
{
    proof {
        lemma_find_sub_idx(s@, p@);
    }
    let slen: usize = s.unicode_len();
    let plen: usize = p.unicode_len();
    if plen > slen {
        return None;
    }
    if plen == 0 {
        proof {
            assert(s@.subrange(0, 0) =~= p@);
        }
        return Some(0);
    }
    let mut i: usize = 0;
    while i <= slen - plen
        invariant
            slen == s@.len(),
            plen == p@.len(),
            0 < plen <= slen,
            0 <= i <= slen - plen + 1,
            forall|k: int| 0 <= k < i ==> !contains_at(s@, k, p@),
        decreases slen - plen + 1 - i,
    {
        let piece = s.substring_char(i, i + plen);
        if str_eq(piece, p) {
            proof {
                assert(contains_at(s@, i as int, p@));
                lemma_find_sub_idx(s@, p@);
                let fi = find_sub_idx(s@, p@);
                if fi == -1 {
                    assert(false);
                } else if fi < i {
                    assert(!contains_at(s@, fi, p@));
                    assert(false);
                } else if fi > i {
                    assert(!contains_at(s@, i as int, p@));
                    assert(false);
                }
            }
            return Some(i);
        }
        i = i + 1;
    }
    proof {
        assert(forall|k: int| contains_at(s@, k, p@) ==> 0 <= k <= slen - plen);
        lemma_find_sub_idx(s@, p@);
        if find_sub_idx(s@, p@) != -1 {
            assert(contains_at(s@, find_sub_idx(s@, p@), p@));
            assert(false);
        }
    }
    None
}

/// The decimal spelling of a signed number: a minus sign before the
/// magnitude when negative.
pub open spec fn int_dec_spec(n: int) -> Seq<char> {
    if n < 0 {
        seq!['-'] + dec_spec(-n)
    } else {
        dec_spec(n)
    }
}

/// Formats a signed number in decimal.
pub fn fmt_i64(n: i64) -> (r: String)
    ensures
        r@ == int_dec_spec(n as int),
{
    proof {
        reveal_strlit("-");
    }
    if n >= 0 {
        fmt_u64(n as u64)
    } else {
        let m: u64 = if n == i64::MIN {
            9223372036854775808u64
        } else {
            (-n) as u64
        };
        proof {
            assert(m as int == -(n as int));
        }
        let mut r = String::from_str("-");
        let d = fmt_u64(m);
        r.append(d.as_str());
        proof {
            assert(r@ =~= seq!['-'] + dec_spec(m as int));
        }
        r
    }
}

} // verus!
