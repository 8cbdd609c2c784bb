//! Release version comparison.
//!
//! A version is read as `[v...]CORE[-PRERELEASE]`: surrounding white space
//! and leading `v`s are dropped, the core is a dot-separated list of numbers
//! (a part that is not a number counts as 0, missing parts count as 0), and
//! the pre-release is a list of identifiers separated by `.` or `_`.

use vstd::prelude::*;
use crate::text::{trim_end, trim_start, decimal, law_parse_reads_decimal, chars_less, chars_of, chars_equal, parse_u64, parse_u64_chars, seq_less, slice_chars, trim, trim_chars};

verus! {

// ---------------------------------------------------------------------------
// Model
// ---------------------------------------------------------------------------

/// `s` without its leading `v` characters (`trim_start_matches('v')`).
pub open spec fn strip_v(s: Seq<char>) -> Seq<char>
    decreases s.len(),
{
    if s.len() > 0 && s[0] == 'v' {
        strip_v(s.drop_first())
    } else {
        s
    }
}

/// Position of the first `c` in `s`, or `s.len()` when there is none.
pub open spec fn first_index(s: Seq<char>, c: char) -> int
    decreases s.len(),
{
    if s.len() == 0 {
        0
    } else if s[0] == c {
        0
    } else {
        1 + first_index(s.drop_first(), c)
    }
}

/// The dot-separated parts of `s` (`str::split('.')`), empty parts included.
pub open spec fn dot_parts(s: Seq<char>) -> Seq<Seq<char>>
    decreases s.len(),
{
    if s.len() == 0 {
        seq![Seq::<char>::empty()]
    } else {
        let p = dot_parts(s.drop_last());
        if s.last() == '.' {
            p.push(Seq::<char>::empty())
        } else {
            p.update(p.len() - 1, p.last().push(s.last()))
        }
    }
}

/// The number a core part stands for: its trimmed text parsed as `u64`,
/// or 0 when that fails.
pub open spec fn part_number(part: Seq<char>) -> u64 {
    match parse_u64(trim(part)) {
        Some(n) => n,
        None => 0,
    }
}

/// The numbers of a version core.
pub open spec fn numeric_core(core: Seq<char>) -> Seq<u64> {
    dot_parts(core).map_values(|p: Seq<char>| part_number(p))
}

pub open spec fn is_prerelease_separator(c: char) -> bool {
    c == '.' || c == '_'
}

/// The maximal runs of characters other than `.` and `_` in `s`.
pub open spec fn identifier_runs(s: Seq<char>) -> Seq<Seq<char>>
    decreases s.len(),
{
    if s.len() == 0 {
        Seq::empty()
    } else {
        let p = identifier_runs(s.drop_last());
        let c = s.last();
        if is_prerelease_separator(c) {
            p
        } else if s.len() >= 2 && !is_prerelease_separator(s[s.len() - 2]) {
            p.update(p.len() - 1, p.last().push(c))
        } else {
            p.push(seq![c])
        }
    }
}

/// The identifiers of a pre-release label.
pub open spec fn prerelease_identifiers(label: Seq<char>) -> Seq<Seq<char>> {
    identifier_runs(trim(label))
}

/// `s` with surrounding white space and leading `v`s removed.
pub open spec fn version_text(s: Seq<char>) -> Seq<char> {
    strip_v(trim(s))
}

/// The core numbers of a version string.
pub open spec fn version_core(s: Seq<char>) -> Seq<u64> {
    let v = version_text(s);
    numeric_core(v.take(first_index(v, '-')))
}

/// The pre-release label of a version string: what follows its first `-`.
pub open spec fn version_prerelease(s: Seq<char>) -> Option<Seq<char>> {
    let v = version_text(s);
    let k = first_index(v, '-');
    if k < v.len() {
        Some(v.skip(k + 1))
    } else {
        None
    }
}

pub open spec fn head_or_zero(a: Seq<u64>) -> u64 {
    if a.len() > 0 {
        a[0]
    } else {
        0
    }
}

pub open spec fn tail(a: Seq<u64>) -> Seq<u64> {
    if a.len() > 0 {
        a.drop_first()
    } else {
        a
    }
}

/// Compares two cores padded with zeros: -1, 0 or 1.
pub open spec fn compare_cores(a: Seq<u64>, b: Seq<u64>) -> int
    decreases a.len() + b.len(),
{
    if a.len() == 0 && b.len() == 0 {
        0
    } else if head_or_zero(a) != head_or_zero(b) {
        if head_or_zero(a) < head_or_zero(b) {
            -1
        } else {
            1
        }
    } else {
        compare_cores(tail(a), tail(b))
    }
}

/// Whether the pre-release identifiers `a` make a newer release than `b`:
/// at the first pair that differs, two numbers compare as numbers and
/// anything else compares as text; running out of identifiers first wins.
pub open spec fn identifiers_newer(a: Seq<Seq<char>>, b: Seq<Seq<char>>) -> bool
    decreases a.len(),
{
    if a.len() == 0 && b.len() == 0 {
        false
    } else if b.len() == 0 {
        false
    } else if a.len() == 0 {
        true
    } else {
        let l = a[0];
        let r = b[0];
        match (parse_u64(l), parse_u64(r)) {
            (Some(x), Some(y)) => if x != y {
                x > y
            } else {
                identifiers_newer(a.drop_first(), b.drop_first())
            },
            _ => if l != r {
                seq_less(r, l)
            } else {
                identifiers_newer(a.drop_first(), b.drop_first())
            },
        }
    }
}

/// Whether `candidate` names a strictly newer release than `current`.
pub open spec fn newer(candidate: Seq<char>, current: Seq<char>) -> bool {
    let c = compare_cores(version_core(candidate), version_core(current));
    if c != 0 {
        c > 0
    } else {
        match (version_prerelease(candidate), version_prerelease(current)) {
            (None, None) => false,
            (None, Some(_)) => true,
            (Some(_), None) => false,
            (Some(a), Some(b)) => identifiers_newer(
                prerelease_identifiers(a),
                prerelease_identifiers(b),
            ),
        }
    }
}

// ---------------------------------------------------------------------------
// Lemmas
// ---------------------------------------------------------------------------

proof fn lemma_dot_parts_nonempty(s: Seq<char>)
    ensures
        dot_parts(s).len() >= 1,
    decreases s.len(),
{
    if s.len() > 0 {
        lemma_dot_parts_nonempty(s.drop_last());
    }
}

proof fn lemma_identifier_runs_nonempty(s: Seq<char>)
    requires
        s.len() >= 1,
        !is_prerelease_separator(s.last()),
    ensures
        identifier_runs(s).len() >= 1,
    decreases s.len(),
{
    if s.len() >= 2 && !is_prerelease_separator(s[s.len() - 2]) {
        lemma_identifier_runs_nonempty(s.drop_last());
    }
}

proof fn lemma_first_index_bounds(s: Seq<char>, c: char)
    ensures
        0 <= first_index(s, c) <= s.len(),
        first_index(s, c) < s.len() ==> s[first_index(s, c)] == c,
        forall|i: int| 0 <= i < first_index(s, c) ==> s[i] != c,
    decreases s.len(),
{
    if s.len() > 0 && s[0] != c {
        lemma_first_index_bounds(s.drop_first(), c);
        assert forall|i: int| 0 <= i < first_index(s, c) implies s[i] != c by {
            if i > 0 {
                assert(s[i] == s.drop_first()[i - 1]);
            }
        }
    }
}

proof fn lemma_first_index_skip(s: Seq<char>, c: char, i: int)
    requires
        0 <= i < s.len(),
        s[i] != c,
    ensures
        first_index(s.skip(i), c) == 1 + first_index(s.skip(i + 1), c),
{
    assert(s.skip(i).drop_first() == s.skip(i + 1));
}

proof fn lemma_strip_v_skip(s: Seq<char>, i: int)
    requires
        0 <= i < s.len(),
        s[i] == 'v',
    ensures
        strip_v(s.skip(i)) == strip_v(s.skip(i + 1)),
{
    assert(s.skip(i).drop_first() == s.skip(i + 1));
}

/// Every core compares equal to itself.
pub proof fn lemma_compare_cores_reflexive(a: Seq<u64>)
    ensures
        compare_cores(a, a) == 0,
    decreases a.len(),
{
    if a.len() > 0 {
        lemma_compare_cores_reflexive(tail(a));
    }
}

/// Swapping the cores negates their comparison.
pub proof fn lemma_compare_cores_antisymmetric(a: Seq<u64>, b: Seq<u64>)
    ensures
        compare_cores(a, b) == -compare_cores(b, a),
    decreases a.len() + b.len(),
{
    if !(a.len() == 0 && b.len() == 0) && head_or_zero(a) == head_or_zero(b) {
        lemma_compare_cores_antisymmetric(tail(a), tail(b));
    }
}

/// Code-point order is irreflexive.
pub proof fn lemma_seq_less_irreflexive(a: Seq<char>)
    ensures
        !seq_less(a, a),
    decreases a.len(),
{
    if a.len() > 0 {
        lemma_seq_less_irreflexive(a.drop_first());
    }
}

/// Code-point order is asymmetric.
pub proof fn lemma_seq_less_asymmetric(a: Seq<char>, b: Seq<char>)
    ensures
        !(seq_less(a, b) && seq_less(b, a)),
    decreases a.len(),
{
    if a.len() > 0 && b.len() > 0 && a[0] == b[0] {
        lemma_seq_less_asymmetric(a.drop_first(), b.drop_first());
    }
}

/// No list of identifiers is newer than itself.
pub proof fn lemma_identifiers_newer_irreflexive(a: Seq<Seq<char>>)
    ensures
        !identifiers_newer(a, a),
    decreases a.len(),
{
    if a.len() > 0 {
        lemma_identifiers_newer_irreflexive(a.drop_first());
    }
}

/// Of two lists of identifiers at most one is newer than the other.
pub proof fn lemma_identifiers_newer_asymmetric(a: Seq<Seq<char>>, b: Seq<Seq<char>>)
    ensures
        !(identifiers_newer(a, b) && identifiers_newer(b, a)),
    decreases a.len(),
{
    if a.len() > 0 && b.len() > 0 {
        lemma_seq_less_asymmetric(a[0], b[0]);
        lemma_identifiers_newer_asymmetric(a.drop_first(), b.drop_first());
    }
}

// ---------------------------------------------------------------------------
// Implementation
// ---------------------------------------------------------------------------

/// `version_text`: trims the version and drops its leading `v`s.
pub fn version_chars(version: &str) -> (r: Vec<char>)
    ensures
        r@ == version_text(version@),
{
    let all = chars_of(version);
    let t = trim_chars(&all);
    let mut i: usize = 0;
    assert(t@.skip(0) == t@);
    while i < t.len() && t[i] == 'v'
        invariant
            i <= t@.len(),
            strip_v(t@) == strip_v(t@.skip(i as int)),
        decreases t@.len() - i,
    {
        proof {
            lemma_strip_v_skip(t@, i as int);
        }
        i = i + 1;
    }
    assert(strip_v(t@.skip(i as int)) == t@.skip(i as int)) by {
        if i < t@.len() {
            assert(t@.skip(i as int)[0] == t@[i as int]);
        }
    }
    slice_chars(&t, i, t.len())
}

/// `first_index(s, c)`.
fn find_char(s: &[char], c: char) -> (r: usize)
    ensures
        r as int == first_index(s@, c),
{
    let mut i: usize = 0;
    assert(s@.skip(0) == s@);
    while i < s.len() && s[i] != c
        invariant
            i <= s@.len(),
            first_index(s@, c) == i + first_index(s@.skip(i as int), c),
        decreases s@.len() - i,
    {
        proof {
            lemma_first_index_skip(s@, c, i as int);
        }
        i = i + 1;
    }
    proof {
        if i < s@.len() {
            assert(s@.skip(i as int)[0] == c);
        }
    }
    i
}

/// The numbers of a version core (`numeric_core`).
fn core_numbers(core: &[char]) -> (r: Vec<u64>)
    ensures
        r@ == numeric_core(core@),
{
    let mut r: Vec<u64> = Vec::new();
    let mut current: Vec<char> = Vec::new();
    let mut i: usize = 0;
    while i < core.len()
        invariant
            i <= core@.len(),
            r@.len() + 1 == dot_parts(core@.take(i as int)).len(),
            forall|k: int|
                0 <= k < r@.len() ==> r@[k] == part_number(
                    #[trigger] dot_parts(core@.take(i as int))[k],
                ),
            current@ == dot_parts(core@.take(i as int)).last(),
        decreases core@.len() - i,
    {
        let ghost before = core@.take(i as int);
        proof {
            lemma_dot_parts_nonempty(before);
            assert(core@.take(i + 1).drop_last() == before);
        }
        if core[i] == '.' {
            let t = trim_chars(&current);
            let n = match parse_u64_chars(&t) {
                Some(n) => n,
                None => 0,
            };
            r.push(n);
            current = Vec::new();
        } else {
            current.push(core[i]);
        }
        i = i + 1;
    }
    let t = trim_chars(&current);
    let n = match parse_u64_chars(&t) {
        Some(n) => n,
        None => 0,
    };
    r.push(n);
    assert(core@.take(core@.len() as int) == core@);
    proof {
        lemma_dot_parts_nonempty(core@);
    }
    assert(r@ == numeric_core(core@));
    r
}

/// The views of a list of character vectors.
pub open spec fn views(v: Seq<Vec<char>>) -> Seq<Seq<char>> {
    v.map_values(|x: Vec<char>| x@)
}

/// The identifiers of a pre-release label (`prerelease_identifiers`).
fn prerelease_ids(label: &[char]) -> (r: Vec<Vec<char>>)
    ensures
        views(r@) == prerelease_identifiers(label@),
{
    let t = trim_chars(label);
    let mut ids: Vec<Vec<char>> = Vec::new();
    let mut current: Vec<char> = Vec::new();
    let mut i: usize = 0;
    while i < t.len()
        invariant
            i <= t@.len(),
            current@.len() > 0 <==> (i > 0 && !is_prerelease_separator(t@[i - 1])),
            identifier_runs(t@.take(i as int)) == (if current@.len() > 0 {
                views(ids@).push(current@)
            } else {
                views(ids@)
            }),
        decreases t@.len() - i,
    {
        let c = t[i];
        proof {
            assert(t@.take(i + 1).drop_last() == t@.take(i as int));
            assert(t@.take(i + 1).last() == c);
            if i >= 1 {
                assert(t@.take(i + 1)[i - 1] == t@[i - 1]);
            }
        }
        if c == '.' || c == '_' {
            if current.len() > 0 {
                let ghost before = ids@;
                let ghost done = current@;
                ids.push(current);
                assert(views(ids@) == views(before).push(done));
                current = Vec::new();
            }
        } else {
            let ghost had = current@;
            current.push(c);
            proof {
                let p = identifier_runs(t@.take(i as int));
                if had.len() > 0 {
                    assert(p.update(p.len() - 1, p.last().push(c)) == views(ids@).push(
                        current@,
                    ));
                } else {
                    assert(current@ == seq![c]);
                }
            }
        }
        i = i + 1;
    }
    if current.len() > 0 {
        let ghost before = ids@;
        let ghost done = current@;
        ids.push(current);
        assert(views(ids@) == views(before).push(done));
    }
    assert(t@.take(t@.len() as int) == t@);
    ids
}

/// `a` without its first `i` elements (empty when `i` passes its end).
pub open spec fn drop_n(a: Seq<u64>, i: int) -> Seq<u64> {
    if i <= a.len() {
        a.skip(i)
    } else {
        Seq::empty()
    }
}

proof fn lemma_drop_n_step(a: Seq<u64>, i: int)
    requires
        0 <= i,
    ensures
        tail(drop_n(a, i)) == drop_n(a, i + 1),
        head_or_zero(drop_n(a, i)) == (if i < a.len() {
            a[i]
        } else {
            0
        }),
{
    if i < a.len() {
        assert(a.skip(i).drop_first() == a.skip(i + 1));
    }
}

/// `compare_cores(a, b)`.
fn compare_core_numbers(a: &[u64], b: &[u64]) -> (r: i8)
    ensures
        r as int == compare_cores(a@, b@),
{
    let length = if a.len() > b.len() {
        a.len()
    } else {
        b.len()
    };
    let mut i: usize = 0;
    assert(drop_n(a@, 0) == a@ && drop_n(b@, 0) == b@);
    while i < length
        invariant
            i <= length,
            length == a@.len() || length == b@.len(),
            a@.len() <= length,
            b@.len() <= length,
            compare_cores(a@, b@) == compare_cores(drop_n(a@, i as int), drop_n(b@, i as int)),
        decreases length - i,
    {
        let left = if i < a.len() {
            a[i]
        } else {
            0
        };
        let right = if i < b.len() {
            b[i]
        } else {
            0
        };
        proof {
            lemma_drop_n_step(a@, i as int);
            lemma_drop_n_step(b@, i as int);
            if i < a@.len() {
                assert(drop_n(a@, i as int).len() > 0);
            } else {
                assert(i < b@.len());
                assert(drop_n(b@, i as int).len() > 0);
            }
        }
        if left != right {
            return if left < right {
                -1
            } else {
                1
            };
        }
        i = i + 1;
    }
    proof {
        assert(drop_n(a@, i as int).len() == 0);
        assert(drop_n(b@, i as int).len() == 0);
    }
    0
}

/// `identifiers_newer(a, b)`.
fn identifiers_newer_exec(a: &Vec<Vec<char>>, b: &Vec<Vec<char>>) -> (r: bool)
    ensures
        r == identifiers_newer(views(a@), views(b@)),
{
    let ghost va = views(a@);
    let ghost vb = views(b@);
    let mut i: usize = 0;
    assert(va.skip(0) == va && vb.skip(0) == vb);
    while i < a.len() || i < b.len()
        invariant
            va == views(a@),
            vb == views(b@),
            i <= a@.len() || i <= b@.len(),
            i <= a@.len() && i <= b@.len(),
            identifiers_newer(va, vb) == identifiers_newer(va.skip(i as int), vb.skip(i as int)),
        decreases a@.len() + b@.len() - 2 * i,
    {
        if i >= b.len() {
            return false;
        }
        if i >= a.len() {
            return true;
        }
        let left = &a[i];
        let right = &b[i];
        proof {
            assert(va.skip(i as int)[0] == left@);
            assert(vb.skip(i as int)[0] == right@);
            assert(va.skip(i as int).drop_first() == va.skip(i + 1));
            assert(vb.skip(i as int).drop_first() == vb.skip(i + 1));
        }
        let same = chars_equal(left, right);
        match (parse_u64_chars(left), parse_u64_chars(right)) {
            (Some(x), Some(y)) => {
                if x != y {
                    return x > y;
                }
            },
            _ => {
                if !same {
                    return chars_less(right, left);
                }
            },
        }
        i = i + 1;
    }
    false
}

/// True when `candidate` is strictly newer than `current`. A release without
/// a pre-release identifier outranks one with it, and `beta.N` identifiers
/// compare numerically.
pub fn is_newer(candidate: &str, current: &str) -> (r: bool)
    ensures
        r == newer(candidate@, current@),
{
    let cand = version_chars(candidate);
    let curr = version_chars(current);
    let cand_dash = find_char(&cand, '-');
    let curr_dash = find_char(&curr, '-');
    proof {
        lemma_first_index_bounds(cand@, '-');
        lemma_first_index_bounds(curr@, '-');
    }
    let cand_core = core_numbers(&slice_chars(&cand, 0, cand_dash));
    let curr_core = core_numbers(&slice_chars(&curr, 0, curr_dash));
    assert(cand@.subrange(0, cand_dash as int) == cand@.take(cand_dash as int));
    assert(curr@.subrange(0, curr_dash as int) == curr@.take(curr_dash as int));
    let order = compare_core_numbers(&cand_core, &curr_core);
    if order != 0 {
        return order > 0;
    }
    let cand_has = cand_dash < cand.len();
    let curr_has = curr_dash < curr.len();
    if !cand_has && !curr_has {
        false
    } else if !cand_has {
        true
    } else if !curr_has {
        false
    } else {
        let cand_label = slice_chars(&cand, cand_dash + 1, cand.len());
        let curr_label = slice_chars(&curr, curr_dash + 1, curr.len());
        assert(cand_label@ == cand@.skip(cand_dash + 1));
        assert(curr_label@ == curr@.skip(curr_dash + 1));
        let a = prerelease_ids(&cand_label);
        let b = prerelease_ids(&curr_label);
        identifiers_newer_exec(&a, &b)
    }
}

// ---------------------------------------------------------------------------
// Laws
// ---------------------------------------------------------------------------

/// No version is newer than itself.
pub proof fn law_not_newer_than_itself(v: Seq<char>)
    ensures
        !newer(v, v),
{
    lemma_compare_cores_reflexive(version_core(v));
    match version_prerelease(v) {
        Some(a) => lemma_identifiers_newer_irreflexive(prerelease_identifiers(a)),
        None => {},
    }
}

/// Of two versions, at most one is newer than the other.
pub proof fn law_newer_is_asymmetric(a: Seq<char>, b: Seq<char>)
    ensures
        !(newer(a, b) && newer(b, a)),
{
    lemma_compare_cores_antisymmetric(version_core(a), version_core(b));
    match (version_prerelease(a), version_prerelease(b)) {
        (Some(x), Some(y)) => lemma_identifiers_newer_asymmetric(
            prerelease_identifiers(x),
            prerelease_identifiers(y),
        ),
        _ => {},
    }
}

/// With cores that compare equal, a release without a pre-release label is
/// newer than one with a label, and not the other way round.
pub proof fn law_release_outranks_prerelease(release: Seq<char>, prerelease: Seq<char>)
    requires
        compare_cores(version_core(release), version_core(prerelease)) == 0,
        version_prerelease(release) is None,
        version_prerelease(prerelease) is Some,
    ensures
        newer(release, prerelease),
        !newer(prerelease, release),
{
    lemma_compare_cores_antisymmetric(version_core(release), version_core(prerelease));
}

/// After a shared prefix of identifiers, two numeric identifiers decide by
/// their numbers (so `beta.10` is newer than `beta.9`).
pub proof fn law_numeric_identifiers_compare_as_numbers(
    prefix: Seq<Seq<char>>,
    n: u64,
    m: u64,
)
    ensures
        identifiers_newer(prefix.push(decimal(n as nat)), prefix.push(decimal(m as nat))) == (n
            > m),
    decreases prefix.len(),
{
    law_parse_reads_decimal(n);
    law_parse_reads_decimal(m);
    let a = prefix.push(decimal(n as nat));
    let b = prefix.push(decimal(m as nat));
    if prefix.len() == 0 {
        assert(a.drop_first().len() == 0 && b.drop_first().len() == 0);
        if n == m {
            assert(!identifiers_newer(a.drop_first(), b.drop_first()));
        }
    } else {
        assert(a.drop_first() == prefix.drop_first().push(decimal(n as nat)));
        assert(b.drop_first() == prefix.drop_first().push(decimal(m as nat)));
        lemma_seq_less_irreflexive(prefix[0]);
        law_numeric_identifiers_compare_as_numbers(prefix.drop_first(), n, m);
    }
}

proof fn lemma_trim_end_after_char(c: char, a: Seq<char>)
    requires
        !crate::text::is_white_space(c),
    ensures
        trim_end(seq![c] + a) == seq![c] + trim_end(a),
    decreases a.len(),
{
    let s = seq![c] + a;
    if a.len() == 0 {
        assert(s == seq![c]);
        assert(s.last() == c);
    } else {
        assert(s.last() == a.last());
        assert(s.drop_last() == seq![c] + a.drop_last());
        lemma_trim_end_after_char(c, a.drop_last());
    }
}

/// A leading `v` is ignored: `v` followed by a version that does not start
/// with white space compares exactly as that version does, on either side.
pub proof fn law_leading_v_is_ignored(a: Seq<char>, b: Seq<char>)
    requires
        a.len() == 0 || !crate::text::is_white_space(a[0]),
    ensures
        version_text(seq!['v'] + a) == version_text(a),
        newer(seq!['v'] + a, b) == newer(a, b),
        newer(b, seq!['v'] + a) == newer(b, a),
{
    let va = seq!['v'] + a;
    assert(!crate::text::is_white_space('v'));
    assert(trim_start(va) == va);
    assert(trim_start(a) == a);
    lemma_trim_end_after_char('v', a);
    let t = trim_end(a);
    assert((seq!['v'] + t).drop_first() == t);
    assert(strip_v(seq!['v'] + t) == strip_v(t));
}

/// The zeros a core may be padded with.
pub open spec fn zeros(n: nat) -> Seq<u64> {
    Seq::new(n, |i: int| 0u64)
}

proof fn lemma_zeros_compare_equal(n: nat)
    ensures
        compare_cores(zeros(n), Seq::empty()) == 0,
    decreases n,
{
    if n > 0 {
        assert(tail(zeros(n)) == zeros((n - 1) as nat));
        assert(tail(Seq::<u64>::empty()) == Seq::<u64>::empty());
        lemma_zeros_compare_equal((n - 1) as nat);
    }
}

/// Missing core parts count as 0: a core compares equal to itself padded
/// with zeros, either way round (so `1.0` and `1.0.0` name the same core).
pub proof fn law_missing_core_parts_count_as_zero(a: Seq<u64>, n: nat)
    ensures
        compare_cores(a, a + zeros(n)) == 0,
        compare_cores(a + zeros(n), a) == 0,
    decreases a.len(),
{
    if a.len() == 0 {
        assert(a == Seq::<u64>::empty());
        assert(a + zeros(n) == zeros(n));
        lemma_zeros_compare_equal(n);
        lemma_compare_cores_antisymmetric(zeros(n), a);
    } else {
        let p = a + zeros(n);
        assert(tail(p) == tail(a) + zeros(n));
        assert(head_or_zero(p) == head_or_zero(a));
        law_missing_core_parts_count_as_zero(tail(a), n);
        assert(compare_cores(a, p) == compare_cores(tail(a), tail(p)));
        assert(compare_cores(p, a) == compare_cores(tail(p), tail(a)));
    }
}

/// Two versions whose cores differ only by missing trailing parts and whose
/// pre-release labels agree are neither newer than the other.
pub proof fn law_padded_versions_are_equal(x: Seq<char>, y: Seq<char>, n: nat)
    requires
        version_core(y) == version_core(x) + zeros(n),
        version_prerelease(x) == version_prerelease(y),
    ensures
        !newer(x, y),
        !newer(y, x),
{
    law_missing_core_parts_count_as_zero(version_core(x), n);
    match version_prerelease(x) {
        Some(p) => lemma_identifiers_newer_irreflexive(prerelease_identifiers(p)),
        None => {},
    }
}

} // verus!
