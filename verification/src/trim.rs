//! Whitespace and trimming.

use vstd::prelude::*;
use vstd::string::*;
use crate::text::chars_of;

verus! {

/// Whether `c` has the Unicode property White_Space.
pub open spec fn is_whitespace(c: char) -> bool {
    let u = c as u32;
    ||| 0x09 <= u <= 0x0D
    ||| u == 0x20
    ||| u == 0x85
    ||| u == 0xA0
    ||| u == 0x1680
    ||| 0x2000 <= u <= 0x200A
    ||| u == 0x2028
    ||| u == 0x2029
    ||| u == 0x202F
    ||| u == 0x205F
    ||| u == 0x3000
}

/// Whether `s` holds nothing but whitespace.
pub open spec fn all_whitespace(s: Seq<char>) -> bool {
    forall|i: int| 0 <= i < s.len() ==> is_whitespace(#[trigger] s[i])
}

/// The first position at or after `i` that holds no whitespace, or the
/// length of `s` if there is none.
pub open spec fn skip_whitespace(s: Seq<char>, i: int) -> int
    decreases s.len() - i,
{
    if 0 <= i < s.len() && is_whitespace(s[i]) {
        skip_whitespace(s, i + 1)
    } else {
        i
    }
}

/// The end of the text that is left of `s[lo..j]` when the whitespace at
/// its end is taken away.
pub open spec fn skip_whitespace_back(s: Seq<char>, lo: int, j: int) -> int
    decreases j - lo,
{
    if lo < j <= s.len() && is_whitespace(s[j - 1]) {
        skip_whitespace_back(s, lo, j - 1)
    } else {
        j
    }
}

/// Where the trimmed text starts in `s`.
pub open spec fn trim_start(s: Seq<char>) -> int {
    skip_whitespace(s, 0)
}

/// Where the trimmed text ends in `s`.
pub open spec fn trim_end(s: Seq<char>) -> int {
    skip_whitespace_back(s, trim_start(s), s.len() as int)
}

/// `s` without the whitespace at its start and at its end.
pub open spec fn trim(s: Seq<char>) -> Seq<char> {
    s.subrange(trim_start(s), trim_end(s))
}

/// `skip_whitespace` passes over whitespace only and stops at the first
/// other character.
pub proof fn lemma_skip_whitespace(s: Seq<char>, i: int)
    requires
        0 <= i <= s.len(),
    ensures
        i <= skip_whitespace(s, i) <= s.len(),
        forall|k: int| i <= k < skip_whitespace(s, i) ==> is_whitespace(#[trigger] s[k]),
        skip_whitespace(s, i) < s.len() ==> !is_whitespace(s[skip_whitespace(s, i)]),
    decreases s.len() - i,
{
    if i < s.len() && is_whitespace(s[i]) {
        lemma_skip_whitespace(s, i + 1);
    }
}

/// `skip_whitespace_back` passes over whitespace only and stops behind the
/// last other character.
pub proof fn lemma_skip_whitespace_back(s: Seq<char>, lo: int, j: int)
    requires
        0 <= lo <= j <= s.len(),
    ensures
        lo <= skip_whitespace_back(s, lo, j) <= j,
        forall|k: int| skip_whitespace_back(s, lo, j) <= k < j ==> is_whitespace(#[trigger] s[k]),
        lo < skip_whitespace_back(s, lo, j) ==> !is_whitespace(
            s[skip_whitespace_back(s, lo, j) - 1],
        ),
    decreases j - lo,
{
    if lo < j && is_whitespace(s[j - 1]) {
        lemma_skip_whitespace_back(s, lo, j - 1);
    }
}

/// The trimmed text is the one piece `s[a..b]` that has only whitespace
/// before and behind it and none at either of its own ends.
pub proof fn lemma_trim_is(s: Seq<char>, a: int, b: int)
    requires
        0 <= a <= b <= s.len(),
        forall|k: int| 0 <= k < a ==> is_whitespace(#[trigger] s[k]),
        forall|k: int| b <= k < s.len() ==> is_whitespace(#[trigger] s[k]),
        a < b ==> !is_whitespace(s[a]) && !is_whitespace(s[b - 1]),
    ensures
        trim(s) == s.subrange(a, b),
{
    let ts = trim_start(s);
    let te = trim_end(s);
    lemma_skip_whitespace(s, 0);
    lemma_skip_whitespace_back(s, ts, s.len() as int);
    if a < b {
        if ts < a {
            assert(is_whitespace(s[ts]));
        }
        if ts > a {
            assert(is_whitespace(s[a]));
        }
        assert(ts == a);
        if te < b {
            assert(is_whitespace(s[b - 1]));
        }
        if te > b {
            assert(is_whitespace(s[te - 1]));
        }
        assert(te == b);
    } else {
        if ts < s.len() {
            assert(is_whitespace(s[ts]));
        }
        assert(ts == s.len());
        assert(te == s.len());
        assert(s.subrange(ts, te) =~= s.subrange(a, b));
    }
}

/// Trimming text that is already trimmed, with any whitespace put around
/// it, gives the trimmed text back.
pub proof fn lemma_trim_padded(lead: Seq<char>, s: Seq<char>, trail: Seq<char>)
    requires
        all_whitespace(lead),
        all_whitespace(trail),
    ensures
        trim(lead + trim(s) + trail) == trim(s),
{
    let t = trim(s);
    let p = lead + t + trail;
    let a = lead.len() as int;
    let b = a + t.len();
    lemma_skip_whitespace(s, 0);
    lemma_skip_whitespace_back(s, trim_start(s), s.len() as int);
    assert forall|k: int| 0 <= k < a implies is_whitespace(#[trigger] p[k]) by {
        assert(p[k] == lead[k]);
    }
    assert forall|k: int| b <= k < p.len() implies is_whitespace(#[trigger] p[k]) by {
        assert(p[k] == trail[k - b]);
    }
    if a < b {
        assert(p[a] == t[0]);
        assert(p[b - 1] == t[t.len() - 1]);
        assert(t[0] == s[trim_start(s)]);
        assert(t[t.len() - 1] == s[trim_end(s) - 1]);
    }
    lemma_trim_is(p, a, b);
    assert(p.subrange(a, b) =~= t);
}

/// Trimming twice is trimming once.
pub proof fn lemma_trim_idempotent(s: Seq<char>)
    ensures
        trim(trim(s)) == trim(s),
{
    lemma_trim_padded(Seq::empty(), s, Seq::empty());
    assert(Seq::<char>::empty() + trim(s) + Seq::<char>::empty() =~= trim(s));
}

/// Whether `c` is whitespace.
pub fn is_whitespace_char(c: char) -> (r: bool)
    ensures
        r == is_whitespace(c),
{
    let u: u32 = c as u32;
    (0x09 <= u && u <= 0x0D) || u == 0x20 || u == 0x85 || u == 0xA0 || u == 0x1680 || (0x2000 <= u
        && u <= 0x200A) || u == 0x2028 || u == 0x2029 || u == 0x202F || u == 0x205F || u == 0x3000
}

/// `s` without the whitespace at its start and at its end.
pub fn trimmed(s: &str) -> (r: String)
    ensures
        r@ == trim(s@),
{
    let v = chars_of(s);
    let n = v.len();
    let mut a: usize = 0;
    while a < n && is_whitespace_char(v[a])
        invariant
            v@ == s@,
            n == v.len(),
            0 <= a <= n,
            skip_whitespace(s@, a as int) == trim_start(s@),
        decreases n - a,
    {
        a += 1;
    }
    let mut b: usize = n;
    while a < b && is_whitespace_char(v[b - 1])
        invariant
            v@ == s@,
            n == v.len(),
            a <= b <= n,
            a == trim_start(s@),
            skip_whitespace_back(s@, a as int, b as int) == trim_end(s@),
        decreases b - a,
    {
        b -= 1;
    }
    s.substring_char(a, b).to_owned()
}

} // verus!
