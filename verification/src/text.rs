//! Character-level text helpers shared by the other modules.

use vstd::prelude::*;
use vstd::string::*;

verus! {

/// The text of an optional string.
pub open spec fn opt_text(o: Option<String>) -> Option<Seq<char>> {
    match o {
        Some(s) => Some(s@),
        None => None,
    }
}

/// Index of the first occurrence of `k` in `keys`, or -1 when it does not occur.
pub open spec fn first_index_of(keys: Seq<Seq<char>>, k: Seq<char>) -> int
    decreases keys.len(),
{
    if keys.len() == 0 {
        -1
    } else if keys[0] == k {
        0
    } else {
        let j = first_index_of(keys.drop_first(), k);
        if j < 0 {
            -1
        } else {
            j + 1
        }
    }
}

/// `first_index_of` finds the first match, and reports -1 exactly when there is none.
pub proof fn lemma_first_index_of(keys: Seq<Seq<char>>, k: Seq<char>)
    ensures
        ({
            let j = first_index_of(keys, k);
            &&& -1 <= j < keys.len()
            &&& j == -1 <==> (forall|i: int| 0 <= i < keys.len() ==> keys[i] != k)
            &&& j >= 0 ==> keys[j] == k && (forall|i: int| 0 <= i < j ==> keys[i] != k)
        }),
    decreases keys.len(),
{
    if keys.len() > 0 && keys[0] != k {
        lemma_first_index_of(keys.drop_first(), k);
        let rest = keys.drop_first();
        assert forall|i: int| 1 <= i < keys.len() implies keys[i] == rest[i - 1] by {}
        if first_index_of(rest, k) == -1 {
            assert forall|i: int| 0 <= i < keys.len() implies keys[i] != k by {
                if i > 0 {
                    assert(rest[i - 1] != k);
                }
            }
        } else {
            let j = first_index_of(rest, k);
            assert forall|i: int| 0 <= i < j + 1 implies keys[i] != k by {
                if i > 0 {
                    assert(rest[i - 1] != k);
                }
            }
        }
    }
}

/// A position that holds `k` with no earlier `k` is the first index of `k`.
pub proof fn lemma_first_index_unique(keys: Seq<Seq<char>>, k: Seq<char>, i: int)
    requires
        0 <= i < keys.len(),
        keys[i] == k,
        forall|m: int| 0 <= m < i ==> keys[m] != k,
    ensures
        first_index_of(keys, k) == i,
{
    lemma_first_index_of(keys, k);
}

/// When no element is `k`, its first index is -1.
pub proof fn lemma_first_index_absent(keys: Seq<Seq<char>>, k: Seq<char>)
    requires
        forall|m: int| 0 <= m < keys.len() ==> keys[m] != k,
    ensures
        first_index_of(keys, k) == -1,
{
    lemma_first_index_of(keys, k);
}

/// Index of the last occurrence of `k` in `keys`, or -1 when it does not occur.
pub open spec fn last_index_of(keys: Seq<Seq<char>>, k: Seq<char>) -> int
    decreases keys.len(),
{
    if keys.len() == 0 {
        -1
    } else if keys.last() == k {
        keys.len() - 1
    } else {
        last_index_of(keys.drop_last(), k)
    }
}

/// The last index of `k` lies within `keys`, or is -1.
pub proof fn lemma_last_index_bound(keys: Seq<Seq<char>>, k: Seq<char>)
    ensures
        -1 <= last_index_of(keys, k) < keys.len(),
        last_index_of(keys, k) >= 0 ==> keys[last_index_of(keys, k)] == k,
    decreases keys.len(),
{
    if keys.len() > 0 && keys.last() != k {
        lemma_last_index_bound(keys.drop_last(), k);
    }
}

/// `s` without the leading run of `c`.
pub open spec fn strip_leading(s: Seq<char>, c: char) -> Seq<char>
    decreases s.len(),
{
    if s.len() > 0 && s[0] == c {
        strip_leading(s.drop_first(), c)
    } else {
        s
    }
}

/// Number of leading characters equal to `c`.
pub open spec fn leading_count(s: Seq<char>, c: char) -> nat
    decreases s.len(),
{
    if s.len() > 0 && s[0] == c {
        1 + leading_count(s.drop_first(), c)
    } else {
        0
    }
}

pub proof fn lemma_strip_leading(s: Seq<char>, c: char)
    ensures
        leading_count(s, c) <= s.len(),
        strip_leading(s, c) == s.skip(leading_count(s, c) as int),
        forall|i: int| 0 <= i < leading_count(s, c) ==> s[i] == c,
        leading_count(s, c) < s.len() ==> s[leading_count(s, c) as int] != c,
    decreases s.len(),
{
    if s.len() > 0 && s[0] == c {
        let rest = s.drop_first();
        lemma_strip_leading(rest, c);
        assert(rest.skip(leading_count(rest, c) as int) =~= s.skip(leading_count(s, c) as int));
        assert forall|i: int| 0 <= i < leading_count(s, c) implies s[i] == c by {
            if i > 0 {
                assert(s[i] == rest[i - 1]);
            }
        }
        if leading_count(s, c) < s.len() {
            assert(s[leading_count(s, c) as int] == rest[leading_count(rest, c) as int]);
        }
    } else {
        assert(s.skip(0) =~= s);
    }
}

/// The part of `s` before the first `c`; all of `s` when it holds no `c`.
pub open spec fn prefix_before(s: Seq<char>, c: char) -> Seq<char>
    decreases s.len(),
{
    if s.len() == 0 {
        s
    } else if s[0] == c {
        Seq::empty()
    } else {
        seq![s[0]] + prefix_before(s.drop_first(), c)
    }
}

pub proof fn lemma_prefix_before(s: Seq<char>, c: char, i: int)
    requires
        0 <= i <= s.len(),
        forall|m: int| 0 <= m < i ==> s[m] != c,
        i == s.len() || s[i] == c,
    ensures
        prefix_before(s, c) == s.subrange(0, i),
    decreases s.len(),
{
    if s.len() > 0 && s[0] != c {
        let rest = s.drop_first();
        assert forall|m: int| 0 <= m < i - 1 implies rest[m] != c by {
            assert(rest[m] == s[m + 1]);
        }
        if i - 1 < rest.len() {
            assert(rest[i - 1] == s[i]);
        }
        lemma_prefix_before(rest, c, i - 1);
        assert(seq![s[0]] + rest.subrange(0, i - 1) =~= s.subrange(0, i));
    } else if s.len() > 0 {
        assert(s.subrange(0, i) =~= Seq::<char>::empty());
    } else {
        assert(s.subrange(0, i) =~= s);
    }
}

/// Whether `needle` occurs in `hay` as a contiguous run of characters.
pub open spec fn contains_text(hay: Seq<char>, needle: Seq<char>) -> bool {
    exists|i: int|
        0 <= i && i + needle.len() <= hay.len() && #[trigger] hay.subrange(i, i + needle.len())
            == needle
}

/// The characters of `s`, in order.
pub fn chars_of(s: &str) -> (cs: Vec<char>)
    ensures
        cs@ == s@,
{
    let n = s.unicode_len();
    let mut cs: Vec<char> = Vec::new();
    let mut i: usize = 0;
    while i < n
        invariant
            i <= n,
            n == s@.len(),
            cs@ == s@.subrange(0, i as int),
        decreases n - i,
    {
        cs.push(s.get_char(i));
        i += 1;
    }
    cs
}

/// Appends one character to `s`.
///
/// Calls `String::push`, which std documents as appending the character
/// to the end of the string.
#[verifier::external_body]
pub fn push_char(s: &mut String, c: char)
    ensures
        final(s)@ == old(s)@.push(c),
{
    s.push(c);
}

/// A string holding the characters of `cs` from position `from` up to, not including, `to`.
pub fn string_of(cs: &Vec<char>, from: usize, to: usize) -> (s: String)
    requires
        from <= to <= cs@.len(),
    ensures
        s@ == cs@.subrange(from as int, to as int),
{
    let mut s = String::new();
    let mut i: usize = from;
    while i < to
        invariant
            from <= i <= to,
            to <= cs@.len(),
            s@ == cs@.subrange(from as int, i as int),
        decreases to - i,
    {
        push_char(&mut s, cs[i]);
        i += 1;
    }
    s
}

/// An owned copy of `s`.
pub fn owned(s: &str) -> (r: String)
    ensures
        r@ == s@,
{
    s.to_owned()
}

/// Whether two texts hold the same characters.
pub fn text_eq(a: &str, b: &str) -> (r: bool)
    ensures
        r == (a@ == b@),
{
    let x = a.to_owned();
    let y = b.to_owned();
    x == y
}

/// `s` with its leading run of `c` removed.
pub fn trim_leading(s: &str, c: char) -> (r: String)
    ensures
        r@ == strip_leading(s@, c),
{
    let cs = chars_of(s);
    let mut i: usize = 0;
    while i < cs.len() && cs[i] == c
        invariant
            i <= cs@.len(),
            cs@ == s@,
            forall|m: int| 0 <= m < i ==> cs@[m] == c,
        decreases cs@.len() - i,
    {
        i += 1;
    }
    proof {
        lemma_strip_leading(s@, c);
        let k = leading_count(s@, c);
        if k < i {
            assert(cs@[k as int] == c);
        }
        if i < k {
            assert(s@[i as int] == c);
        }
    }
    string_of(&cs, i, cs.len())
}

/// The part of `s` before the first `c`.
pub fn take_before(s: &str, c: char) -> (r: String)
    ensures
        r@ == prefix_before(s@, c),
{
    let cs = chars_of(s);
    let mut i: usize = 0;
    while i < cs.len() && cs[i] != c
        invariant
            i <= cs@.len(),
            cs@ == s@,
            forall|m: int| 0 <= m < i ==> cs@[m] != c,
        decreases cs@.len() - i,
    {
        i += 1;
    }
    proof {
        lemma_prefix_before(s@, c, i as int);
    }
    string_of(&cs, 0, i)
}

/// Whether `needle` occurs in `hay`.
pub fn text_contains(hay: &str, needle: &str) -> (r: bool)
    ensures
        r == contains_text(hay@, needle@),
{
    let h = chars_of(hay);
    let n = chars_of(needle);
    if n.len() == 0 {
        assert(hay@.subrange(0int, 0int + needle@.len()) =~= needle@);
        return true;
    }
    if n.len() > h.len() {
        return false;
    }
    let hl = h.len();
    let bound = hl - n.len() + 1;
    let mut i: usize = 0;
    while i < bound
        invariant
            h@ == hay@,
            n@ == needle@,
            1 <= n@.len() <= h@.len(),
            bound == h@.len() - n@.len() + 1,
            i <= bound,
            hl == h@.len(),
            forall|p: int| 0 <= p < i ==> #[trigger] h@.subrange(p, p + n@.len()) != n@,
        decreases bound - i,
    {
        let mut j: usize = 0;
        while j < n.len()
            invariant
                i < bound,
                i + n@.len() <= h@.len(),
                h@ == hay@,
                n@ == needle@,
                1 <= n@.len() <= h@.len(),
                bound == h@.len() - n@.len() + 1,
                j <= n@.len(),
                forall|q: int| 0 <= q < j ==> h@[i + q] == n@[q],
                hl == h@.len(),
            ensures
                j == n@.len() || h@[i + j] != n@[j as int],
            decreases n@.len() - j,
        {
            let at = i + j;
            if h[at] != n[j] {
                break;
            }
            j += 1;
        }
        if j == n.len() {
            assert(h@.subrange(i as int, i + n@.len()) =~= n@);
            return true;
        }
        assert(h@.subrange(i as int, i + n@.len())[j as int] != n@[j as int]);
        i += 1;
    }
    assert forall|p: int| 0 <= p && p + needle@.len() <= hay@.len() implies #[trigger] hay@.subrange(p, p + needle@.len()) != needle@ by {
        assert(p < i);
    }
    false
}

} // verus!
