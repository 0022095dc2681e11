//! Character-level helpers shared by the tokenizer, the literal classifier
//! and the program loader: whitespace tests, trimming, and conversions
//! between `String` and `Vec<char>`.

use vstd::prelude::*;

verus! {

/// The views of a sequence's elements, in order.
pub open spec fn seq_views<T: View>(s: Seq<T>) -> Seq<T::V> {
    Seq::new(s.len(), |i: int| s[i]@)
}

pub proof fn lemma_seq_views_push<T: View>(s: Seq<T>, x: T)
    ensures
        seq_views(s.push(x)) == seq_views(s).push(x@),
{
    assert(seq_views(s.push(x)) =~= seq_views(s).push(x@));
}

pub proof fn lemma_seq_views_update<T: View>(s: Seq<T>, i: int, x: T)
    requires
        0 <= i < s.len(),
    ensures
        seq_views(s.update(i, x)) == seq_views(s).update(i, x@),
{
    assert(seq_views(s.update(i, x)) =~= seq_views(s).update(i, x@));
}

pub proof fn lemma_seq_views_drop_last<T: View>(s: Seq<T>)
    requires
        s.len() > 0,
    ensures
        seq_views(s.drop_last()) == seq_views(s).drop_last(),
{
    assert(seq_views(s.drop_last()) =~= seq_views(s).drop_last());
}

/// A copy of the characters of `v` from `from` (inclusive) to `to`
/// (exclusive).
pub fn chars_sub(v: &Vec<char>, from: usize, to: usize) -> (r: Vec<char>)
    requires
        from <= to <= v@.len(),
    ensures
        r@ == v@.subrange(from as int, to as int),
{
    let mut r: Vec<char> = Vec::new();
    let mut i: usize = from;
    while i < to
        invariant
            from <= i <= to <= v@.len(),
            r@ == v@.subrange(from as int, i as int),
        decreases to - i,
    {
        r.push(v[i]);
        i = i + 1;
        proof {
            assert(r@ =~= v@.subrange(from as int, i as int));
        }
    }
    r
}

/// The Unicode `White_Space` code points, the set documented for
/// `char::is_whitespace`; used by trimming and by declaration splitting.
pub open spec fn spec_is_whitespace(c: char) -> bool {
    let u = c as u32;
    u == 0x09 || u == 0x0A || u == 0x0B || u == 0x0C || u == 0x0D || u == 0x20
        || u == 0x85 || u == 0xA0 || u == 0x1680
        || (0x2000 <= u && u <= 0x200A)
        || u == 0x2028 || u == 0x2029 || u == 0x202F || u == 0x205F || u == 0x3000
}

pub fn is_whitespace_char(c: char) -> (r: bool)
    ensures
        r == spec_is_whitespace(c),
{
    let u = c as u32;
    u == 0x09 || u == 0x0A || u == 0x0B || u == 0x0C || u == 0x0D || u == 0x20
        || u == 0x85 || u == 0xA0 || u == 0x1680
        || (0x2000 <= u && u <= 0x200A)
        || u == 0x2028 || u == 0x2029 || u == 0x202F || u == 0x205F || u == 0x3000
}

/// The characters of a string slice, in order.
pub fn str_to_chars(s: &str) -> (v: Vec<char>)
    ensures
        v@ == s@,
{
    let n = s.unicode_len();
    let mut v: Vec<char> = Vec::new();
    let mut i: usize = 0;
    while i < n
        invariant
            n == s@.len(),
            i <= n,
            v@ == s@.subrange(0, i as int),
        decreases n - i,
    {
        let c = s.get_char(i);
        v.push(c);
        i = i + 1;
        proof {
            assert(v@ =~= s@.subrange(0, i as int));
        }
    }
    proof {
        assert(v@ =~= s@);
    }
    v
}

/// Relies on `String::from_iter` over `char`s: the collected string holds
/// exactly the characters of the iterator, in order.
#[verifier::external_body]
pub fn chars_to_string(v: &Vec<char>) -> (s: String)
    ensures
        s@ == v@,
{
    v.iter().collect()
}

/// Whether a character vector spells exactly the given string.
pub fn chars_eq_str(v: &Vec<char>, s: &str) -> (r: bool)
    ensures
        r == (v@ == s@),
{
    let n = s.unicode_len();
    if v.len() != n {
        proof {
            assert(v@ != s@);
        }
        return false;
    }
    let mut i: usize = 0;
    while i < n
        invariant
            n == s@.len(),
            v@.len() == n,
            i <= n,
            forall|j: int| 0 <= j < i ==> v@[j] == s@[j],
        decreases n - i,
    {
        if v[i] != s.get_char(i) {
            return false;
        }
        i = i + 1;
    }
    proof {
        assert(v@ =~= s@);
    }
    true
}

/// A code point with an ASCII lowercase letter folded to its uppercase form.
pub open spec fn spec_upper_code(u: u32) -> u32 {
    if 0x61 <= u && u <= 0x7A {
        (u - 0x20) as u32
    } else {
        u
    }
}

/// Equality of two character sequences up to ASCII case.
pub open spec fn spec_eq_ignore_ascii_case(a: Seq<char>, b: Seq<char>) -> bool {
    a.len() == b.len() && forall|i: int|
        0 <= i < a.len() ==> spec_upper_code(a[i] as u32) == spec_upper_code(b[i] as u32)
}

/// Whether a character vector spells the given string up to ASCII case.
pub fn chars_eq_str_ignore_case(v: &Vec<char>, s: &str) -> (r: bool)
    ensures
        r == spec_eq_ignore_ascii_case(v@, s@),
{
    let n = s.unicode_len();
    if v.len() != n {
        return false;
    }
    let mut i: usize = 0;
    while i < n
        invariant
            n == s@.len(),
            v@.len() == n,
            i <= n,
            forall|j: int|
                0 <= j < i ==> spec_upper_code(v@[j] as u32) == spec_upper_code(s@[j] as u32),
        decreases n - i,
    {
        let a = v[i] as u32;
        let b = s.get_char(i) as u32;
        let ua = if 0x61 <= a && a <= 0x7A {
            a - 0x20
        } else {
            a
        };
        let ub = if 0x61 <= b && b <= 0x7A {
            b - 0x20
        } else {
            b
        };
        if ua != ub {
            return false;
        }
        i = i + 1;
    }
    true
}

/// A sequence with its leading whitespace removed.
pub open spec fn spec_trim_start(s: Seq<char>) -> Seq<char>
    decreases s.len(),
{
    if s.len() > 0 && spec_is_whitespace(s[0]) {
        spec_trim_start(s.drop_first())
    } else {
        s
    }
}

/// A sequence with its trailing whitespace removed.
pub open spec fn spec_trim_end(s: Seq<char>) -> Seq<char>
    decreases s.len(),
{
    if s.len() > 0 && spec_is_whitespace(s[s.len() - 1]) {
        spec_trim_end(s.drop_last())
    } else {
        s
    }
}

/// A sequence with whitespace removed from both ends.
pub open spec fn spec_trim(s: Seq<char>) -> Seq<char> {
    spec_trim_end(spec_trim_start(s))
}

proof fn lemma_trim_start_skip(s: Seq<char>, i: int)
    requires
        0 <= i <= s.len(),
        forall|j: int| 0 <= j < i ==> spec_is_whitespace(s[j]),
        i < s.len() ==> !spec_is_whitespace(s[i]),
    ensures
        spec_trim_start(s) == s.skip(i),
    decreases i,
{
    if i == 0 {
        if s.len() > 0 {
            assert(!spec_is_whitespace(s[0]));
        }
        assert(s.skip(0) =~= s);
    } else {
        assert(spec_is_whitespace(s[0]));
        let t = s.drop_first();
        assert(t =~= s.skip(1));
        assert forall|j: int| 0 <= j < i - 1 implies spec_is_whitespace(t[j]) by {
            assert(t[j] == s[j + 1]);
        }
        lemma_trim_start_skip(t, i - 1);
        assert(t.skip(i - 1) =~= s.skip(i));
    }
}

proof fn lemma_trim_end_take(s: Seq<char>, i: int)
    requires
        0 <= i <= s.len(),
        forall|j: int| i <= j < s.len() ==> spec_is_whitespace(s[j]),
        i > 0 ==> !spec_is_whitespace(s[i - 1]),
    ensures
        spec_trim_end(s) == s.take(i),
    decreases s.len() - i,
{
    if i == s.len() {
        if s.len() > 0 {
            assert(!spec_is_whitespace(s[s.len() - 1]));
        }
        assert(s.take(i) =~= s);
    } else {
        assert(spec_is_whitespace(s[s.len() - 1]));
        let t = s.drop_last();
        lemma_trim_end_take(t, i);
        assert(t.take(i) =~= s.take(i));
    }
}

/// The characters of `v` with whitespace removed from both ends.
pub fn trim_chars(v: &Vec<char>) -> (r: Vec<char>)
    ensures
        r@ == spec_trim(v@),
{
    let n = v.len();
    let mut start: usize = 0;
    while start < n && is_whitespace_char(v[start])
        invariant
            n == v@.len(),
            start <= n,
            forall|j: int| 0 <= j < start ==> spec_is_whitespace(v@[j]),
        decreases n - start,
    {
        start = start + 1;
    }
    proof {
        lemma_trim_start_skip(v@, start as int);
    }
    let mut end: usize = n;
    while end > start && is_whitespace_char(v[end - 1])
        invariant
            n == v@.len(),
            start <= end <= n,
            forall|j: int| end <= j < n ==> spec_is_whitespace(v@[j]),
        decreases end,
    {
        end = end - 1;
    }
    let mut r: Vec<char> = Vec::new();
    let mut i: usize = start;
    while i < end
        invariant
            n == v@.len(),
            start <= i <= end <= n,
            r@ == v@.subrange(start as int, i as int),
        decreases end - i,
    {
        r.push(v[i]);
        i = i + 1;
        proof {
            assert(r@ =~= v@.subrange(start as int, i as int));
        }
    }
    proof {
        let t = spec_trim_start(v@);
        assert(t == v@.skip(start as int));
        if end > start {
            assert(!spec_is_whitespace(v@[end - 1]));
        }
        assert forall|j: int| end - start <= j < t.len() implies spec_is_whitespace(t[j]) by {
            assert(t[j] == v@[j + start]);
        }
        if end > start {
            assert(t[end - start - 1] == v@[end - 1]);
        }
        lemma_trim_end_take(t, end - start);
        assert(t.take(end - start) =~= v@.subrange(start as int, end as int));
        assert(r@ =~= v@.subrange(start as int, end as int));
    }
    r
}

/// Whether `s` begins with the prefix `p`.
pub open spec fn spec_starts_with(s: Seq<char>, p: Seq<char>) -> bool {
    s.len() >= p.len() && s.take(p.len() as int) == p
}

/// Whether the characters of `v` begin with the given string.
pub fn chars_starts_with(v: &Vec<char>, p: &str) -> (r: bool)
    ensures
        r == spec_starts_with(v@, p@),
{
    let k = p.unicode_len();
    if v.len() < k {
        return false;
    }
    let mut i: usize = 0;
    while i < k
        invariant
            k == p@.len(),
            v@.len() >= k,
            i <= k,
            forall|j: int| 0 <= j < i ==> v@[j] == p@[j],
        decreases k - i,
    {
        if v[i] != p.get_char(i) {
            proof {
                assert(v@.take(k as int)[i as int] != p@[i as int]);
            }
            return false;
        }
        i = i + 1;
    }
    proof {
        assert(v@.take(k as int) =~= p@);
    }
    true
}

/// The characters of `v` with leading whitespace removed.
pub fn trim_start_chars(v: &Vec<char>) -> (r: Vec<char>)
    ensures
        r@ == spec_trim_start(v@),
{
    let n = v.len();
    let mut start: usize = 0;
    while start < n && is_whitespace_char(v[start])
        invariant
            n == v@.len(),
            start <= n,
            forall|j: int| 0 <= j < start ==> spec_is_whitespace(v@[j]),
        decreases n - start,
    {
        start = start + 1;
    }
    proof {
        lemma_trim_start_skip(v@, start as int);
    }
    let r = chars_sub(v, start, n);
    proof {
        assert(v@.subrange(start as int, n as int) =~= v@.skip(start as int));
    }
    r
}

} // verus!
