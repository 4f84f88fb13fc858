//! Version text: what counts as a version, and when one is newer.

use vstd::prelude::*;
use crate::text::{chars_of, lemma_prefix_before, prefix_before, strip_leading, take_before, text_eq, trim_leading};

verus! {

/// Whether `text` is accepted by `semver::Version::parse`.
pub uninterp spec fn semver_parses(text: Seq<char>) -> bool;

/// Whether the version `latest` orders after the version `current` under
/// `semver::Version`'s ordering (major, minor, patch, pre-release, build).
pub uninterp spec fn semver_later(latest: Seq<char>, current: Seq<char>) -> bool;

/// Whether `text` parses as a semantic version.
///
/// Calls `semver::Version::parse`; the contract claims only that the answer
/// is `semver_parses` of the text.
#[verifier::external_body]
fn semver_is_valid(text: &str) -> (ok: bool)
    ensures
        ok == semver_parses(text@),
{
    semver::Version::parse(text).is_ok()
}

/// Whether `latest` is a later version than `current`.
///
/// Parses both with `semver::Version::parse` and compares them with the
/// `>` of `semver::Version` (its derived ordering). The contract claims that
/// the answer is `semver_later` when both parse and false otherwise, and,
/// since that ordering is irreflexive, that a text is never later than itself.
#[verifier::external_body]
fn semver_is_later(latest: &str, current: &str) -> (later: bool)
    ensures
        later == (semver_parses(latest@) && semver_parses(current@) && semver_later(latest@, current@)),
        latest@ == current@ ==> !later,
{
    match (semver::Version::parse(latest), semver::Version::parse(current)) {
        (Ok(l), Ok(c)) => l > c,
        _ => false,
    }
}

/// Whether `c` is an ASCII decimal digit.
pub open spec fn is_digit(c: char) -> bool {
    '0' <= c <= '9'
}

/// The number written by the decimal digits `s`.
pub open spec fn digits_value(s: Seq<char>) -> nat
    decreases s.len(),
{
    if s.len() == 0 {
        0
    } else {
        digits_value(s.drop_last()) * 10 + ((s.last() as int) - 48) as nat
    }
}

/// A numeric component of a semantic version: decimal digits without a
/// leading zero (a lone `0` is fine), whose value fits in a `u64`.
pub open spec fn numeric_identifier(s: Seq<char>) -> bool {
    &&& s.len() > 0
    &&& forall|i: int| 0 <= i < s.len() ==> #[trigger] is_digit(s[i])
    &&& (s.len() == 1 || s[0] != '0')
    &&& digits_value(s) <= u64::MAX
}

/// The `(major, minor, patch)` of a release version written
/// `MAJOR.MINOR.PATCH` with no pre-release or build part; none for any other text.
///
/// `semver::Version::parse` accepts every such text, and `semver` orders two
/// such versions by major, then minor, then patch: their pre-release and
/// build parts are both empty and compare equal.
pub open spec fn release_core(t: Seq<char>) -> Option<(nat, nat, nat)> {
    let a = prefix_before(t, '.');
    if a.len() >= t.len() {
        None
    } else {
        let rest = t.skip(a.len() as int + 1);
        let b = prefix_before(rest, '.');
        if b.len() >= rest.len() {
            None
        } else {
            let c = rest.skip(b.len() as int + 1);
            if numeric_identifier(a) && numeric_identifier(b) && numeric_identifier(c) {
                Some((digits_value(a), digits_value(b), digits_value(c)))
            } else {
                None
            }
        }
    }
}

/// Whether release `later` orders after release `earlier`: by major, then
/// minor, then patch.
pub open spec fn core_later(later: (nat, nat, nat), earlier: (nat, nat, nat)) -> bool {
    later.0 > earlier.0 || (later.0 == earlier.0 && (later.1 > earlier.1 || (later.1 == earlier.1
        && later.2 > earlier.2)))
}

proof fn lemma_digits_value_prefix(s: Seq<char>, k: int)
    requires
        0 <= k <= s.len(),
    ensures
        digits_value(s) >= digits_value(s.subrange(0, k)),
    decreases s.len(),
{
    if k < s.len() {
        let d = s.drop_last();
        lemma_digits_value_prefix(d, k);
        assert(d.subrange(0, k) =~= s.subrange(0, k));
    } else {
        assert(s.subrange(0, k) =~= s);
    }
}

/// The numeric identifier written by `cs[from..to]`, if it is one.
fn numeric_value(cs: &Vec<char>, from: usize, to: usize) -> (v: Option<u64>)
    requires
        from <= to <= cs@.len(),
    ensures
        match v {
            Some(x) => numeric_identifier(cs@.subrange(from as int, to as int)) && x as nat == digits_value(
                cs@.subrange(from as int, to as int),
            ),
            None => !numeric_identifier(cs@.subrange(from as int, to as int)),
        },
{
    let ghost s = cs@.subrange(from as int, to as int);
    if from == to {
        return None;
    }
    if to - from > 1 && cs[from] == '0' {
        assert(s[0] == '0');
        return None;
    }
    let mut v: u64 = 0;
    let mut i: usize = from;
    while i < to
        invariant
            from <= i <= to,
            to <= cs@.len(),
            s == cs@.subrange(from as int, to as int),
            forall|m: int| 0 <= m < i - from ==> #[trigger] is_digit(s[m]),
            v as nat == digits_value(s.subrange(0, i - from)),
        decreases to - i,
    {
        let c = cs[i];
        if !('0' <= c && c <= '9') {
            assert(!is_digit(s[i - from]));
            return None;
        }
        let d = (c as u32 - 48) as u128;
        let next = (v as u128) * 10 + d;
        proof {
            let pre = s.subrange(0, i - from + 1);
            assert(pre.drop_last() =~= s.subrange(0, i - from));
            assert(pre.last() == c);
            assert(next == digits_value(pre));
        }
        if next > u64::MAX as u128 {
            proof {
                lemma_digits_value_prefix(s, i - from + 1);
            }
            return None;
        }
        v = next as u64;
        i += 1;
    }
    assert(s.subrange(0, (to - from) as int) =~= s);
    Some(v)
}

/// Position of the first `.` in `cs[from..]`, or `cs.len()` when there is none.
fn next_dot(cs: &Vec<char>, from: usize) -> (i: usize)
    requires
        from <= cs@.len(),
    ensures
        from <= i <= cs@.len(),
        forall|m: int| from <= m < i ==> cs@[m] != '.',
        i < cs@.len() ==> cs@[i as int] == '.',
{
    let mut i = from;
    while i < cs.len() && cs[i] != '.'
        invariant
            from <= i <= cs@.len(),
            forall|m: int| from <= m < i ==> cs@[m] != '.',
        decreases cs@.len() - i,
    {
        i += 1;
    }
    i
}

/// The `(major, minor, patch)` of a plain release version.
pub fn release_core_of(t: &str) -> (r: Option<(u64, u64, u64)>)
    ensures
        match r {
            Some((a, b, c)) => release_core(t@) == Some((a as nat, b as nat, c as nat)),
            None => release_core(t@) is None,
        },
{
    let cs = chars_of(t);
    let n = cs.len();
    let i1 = next_dot(&cs, 0);
    proof {
        lemma_prefix_before(t@, '.', i1 as int);
    }
    if i1 == n {
        return None;
    }
    let i2 = next_dot(&cs, i1 + 1);
    proof {
        let rest = t@.skip(i1 + 1);
        assert forall|m: int| 0 <= m < i2 - (i1 + 1) implies rest[m] != '.' by {
            assert(rest[m] == t@[m + i1 + 1]);
        }
        if i2 < n {
            assert(rest[i2 - (i1 + 1)] == t@[i2 as int]);
        }
        lemma_prefix_before(rest, '.', i2 - (i1 + 1));
        assert(rest.subrange(0, i2 - (i1 + 1)) =~= t@.subrange(i1 + 1, i2 as int));
        if i2 < n {
            assert(rest.skip(i2 - (i1 + 1) + 1) =~= t@.subrange(i2 + 1, n as int));
        }
    }
    if i2 == n {
        return None;
    }
    let a = numeric_value(&cs, 0, i1);
    let b = numeric_value(&cs, i1 + 1, i2);
    let c = numeric_value(&cs, i2 + 1, n);
    match (a, b, c) {
        (Some(a), Some(b), Some(c)) => Some((a, b, c)),
        _ => None,
    }
}

/// The version read from a release tag: the tag without leading `v`s when
/// that parses, else its part before the first `-` when that parses, else none.
pub open spec fn version_from_tag(tag: Seq<char>) -> Option<Seq<char>> {
    let trimmed = strip_leading(tag, 'v');
    if release_core(trimmed) is Some || semver_parses(trimmed) {
        Some(trimmed)
    } else {
        let core = prefix_before(trimmed, '-');
        if release_core(core) is Some || semver_parses(core) {
            Some(core)
        } else {
            None
        }
    }
}

/// Whether a program whose installed version is `current` has an update to
/// `latest`: for two release versions, by major, minor and patch; otherwise
/// by `semver` order when both parse, and by inequality when not.
pub open spec fn update_available(current: Option<Seq<char>>, latest: Option<Seq<char>>) -> bool {
    match (current, latest) {
        (Some(c), Some(l)) => match (release_core(c), release_core(l)) {
            (Some(a), Some(b)) => core_later(b, a),
            _ => if semver_parses(c) && semver_parses(l) {
                semver_later(l, c)
            } else {
                c != l
            },
        },
        (None, Some(_)) => true,
        _ => false,
    }
}

/// Reads the version from a release tag: strips leading `v`s, then falls
/// back to the part before the first `-`.
pub fn parse_version(tag: &str) -> (v: Option<String>)
    ensures
        match v {
            Some(s) => version_from_tag(tag@) == Some(s@),
            None => version_from_tag(tag@) is None,
        },
{
    let trimmed = trim_leading(tag, 'v');
    if release_core_of(trimmed.as_str()).is_some() || semver_is_valid(trimmed.as_str()) {
        Some(trimmed)
    } else {
        let core = take_before(trimmed.as_str(), '-');
        if release_core_of(core.as_str()).is_some() || semver_is_valid(core.as_str()) {
            Some(core)
        } else {
            None
        }
    }
}

/// Whether `latest` is an update over the installed `current` version:
/// by semantic-version order when both parse, by inequality otherwise; a
/// program with no installed version has an update whenever a latest
/// version is known.
pub fn has_update(current: Option<&str>, latest: Option<&str>) -> (r: bool)
    ensures
        r == update_available(
            match current { Some(c) => Some(c@), None => None },
            match latest { Some(l) => Some(l@), None => None },
        ),
        current matches Some(c) && latest matches Some(l) && c@ == l@ ==> !r,
{
    match (current, latest) {
        (Some(c), Some(l)) => match (release_core_of(c), release_core_of(l)) {
            (Some(a), Some(b)) => b.0 > a.0 || (b.0 == a.0 && (b.1 > a.1 || (b.1 == a.1 && b.2 > a.2))),
            _ => {
                if semver_is_valid(c) && semver_is_valid(l) {
                    semver_is_later(l, c)
                } else {
                    !text_eq(c, l)
                }
            },
        },
        (None, Some(_)) => true,
        _ => false,
    }
}

/// A version read from a tag never starts with `v`: the leading `v`s of the
/// tag are always dropped.
pub proof fn lemma_version_not_v_prefixed(tag: Seq<char>)
    ensures
        version_from_tag(tag) matches Some(v) ==> (v.len() == 0 || v[0] != 'v'),
{
    let t = strip_leading(tag, 'v');
    lemma_strip_leading_first(tag, 'v');
    lemma_prefix_before_prefix(t, '-');
}

proof fn lemma_strip_leading_first(s: Seq<char>, c: char)
    ensures
        strip_leading(s, c).len() == 0 || strip_leading(s, c)[0] != c,
    decreases s.len(),
{
    if s.len() > 0 && s[0] == c {
        lemma_strip_leading_first(s.drop_first(), c);
    }
}

proof fn lemma_prefix_before_prefix(s: Seq<char>, c: char)
    ensures
        prefix_before(s, c).len() <= s.len(),
        prefix_before(s, c).len() > 0 ==> prefix_before(s, c)[0] == s[0],
    decreases s.len(),
{
    if s.len() > 0 && s[0] != c {
        lemma_prefix_before_prefix(s.drop_first(), c);
    }
}

/// Between two release versions, a higher major, or the same major and a
/// higher minor, or the same major and minor and a higher patch, is an update.
pub proof fn lemma_higher_release_is_update(current: Seq<char>, latest: Seq<char>)
    requires
        release_core(current) matches Some(c) && release_core(latest) matches Some(l) && (l.0 > c.0 || (
        l.0 == c.0 && l.1 > c.1) || (l.0 == c.0 && l.1 == c.1 && l.2 > c.2)),
    ensures
        update_available(Some(current), Some(latest)),
{
}

/// Between two release versions, one that is not higher in major, minor and
/// patch order (the same, or lower) is never an update.
pub proof fn lemma_lower_release_no_update(current: Seq<char>, latest: Seq<char>)
    requires
        release_core(current) matches Some(c) && release_core(latest) matches Some(l) && (l.0 < c.0 || (
        l.0 == c.0 && l.1 < c.1) || (l.0 == c.0 && l.1 == c.1 && l.2 <= c.2)),
    ensures
        !update_available(Some(current), Some(latest)),
{
}

/// Between two release versions, an update one way is never an update the
/// other way back, and of two different releases one is an update over the other.
pub proof fn lemma_release_updates_are_ordered(a: Seq<char>, b: Seq<char>)
    requires
        release_core(a) is Some,
        release_core(b) is Some,
    ensures
        update_available(Some(a), Some(b)) ==> !update_available(Some(b), Some(a)),
        release_core(a) != release_core(b) ==> update_available(Some(a), Some(b))
            || update_available(Some(b), Some(a)),
{
}

/// Updates between release versions chain: if `b` is an update over `a` and
/// `c` over `b`, then `c` is an update over `a`.
pub proof fn lemma_release_updates_chain(a: Seq<char>, b: Seq<char>, c: Seq<char>)
    requires
        release_core(a) is Some,
        release_core(b) is Some,
        release_core(c) is Some,
        update_available(Some(a), Some(b)),
        update_available(Some(b), Some(c)),
    ensures
        update_available(Some(a), Some(c)),
{
}

/// A tag that is `v`s followed by a release version reads as that version.
pub proof fn lemma_release_tag_reads(tag: Seq<char>)
    requires
        release_core(strip_leading(tag, 'v')) is Some,
    ensures
        version_from_tag(tag) == Some(strip_leading(tag, 'v')),
{
}

} // verus!
