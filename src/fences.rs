//! Cleaning a model's reply before it is parsed as JSON: surrounding
//! whitespace and Markdown code fences (```json ... ```) are removed.
use vstd::prelude::*;

verus! {

/// Whether `c` has the Unicode `White_Space` property.
pub uninterp spec fn white_space(c: char) -> bool;

/// Relies on `char::is_whitespace`: the Unicode `White_Space` property,
/// which depends on the character alone.
#[verifier::external_body]
fn is_white_space(c: char) -> (r: bool)
    ensures
        r == white_space(c),
{
    c.is_whitespace()
}

/// `s` without its leading whitespace.
pub open spec fn trim_start_ws(s: Seq<char>) -> Seq<char>
    decreases s.len(),
{
    if s.len() > 0 && white_space(s[0]) {
        trim_start_ws(s.drop_first())
    } else {
        s
    }
}

/// `s` without its trailing whitespace.
pub open spec fn trim_end_ws(s: Seq<char>) -> Seq<char>
    decreases s.len(),
{
    if s.len() > 0 && white_space(s.last()) {
        trim_end_ws(s.drop_last())
    } else {
        s
    }
}

/// `s` without leading and trailing whitespace.
pub open spec fn trim_ws(s: Seq<char>) -> Seq<char> {
    trim_end_ws(trim_start_ws(s))
}

/// `s` without any number of copies of `p` at its start.
pub open spec fn strip_leading(s: Seq<char>, p: Seq<char>) -> Seq<char>
    decreases s.len(),
{
    if p.len() > 0 && p.len() <= s.len() && s.take(p.len() as int) == p {
        strip_leading(s.skip(p.len() as int), p)
    } else {
        s
    }
}

/// `s` without any number of copies of `p` at its end.
pub open spec fn strip_trailing(s: Seq<char>, p: Seq<char>) -> Seq<char>
    decreases s.len(),
{
    if p.len() > 0 && p.len() <= s.len() && s.skip(s.len() - p.len()) == p {
        strip_trailing(s.take(s.len() - p.len()), p)
    } else {
        s
    }
}

pub open spec fn fence() -> Seq<char> {
    seq!['`', '`', '`']
}

pub open spec fn json_fence() -> Seq<char> {
    seq!['`', '`', '`', 'j', 's', 'o', 'n']
}

/// The reply with whitespace trimmed, then opening ```json and ``` fences
/// stripped, then closing ``` fences stripped, then whitespace trimmed again.
pub open spec fn sanitized(s: Seq<char>) -> Seq<char> {
    trim_ws(strip_trailing(strip_leading(strip_leading(trim_ws(s), json_fence()), fence()), fence()))
}

/// Whether `pat` occurs in `s` at position `at`, within `[at, hi)`.
fn occurs_at(s: &str, at: usize, hi: usize, pat: &Vec<char>) -> (r: bool)
    requires
        at <= hi <= s@.len(),
    ensures
        r == (pat@.len() <= hi - at && s@.subrange(at as int, at + pat@.len()) == pat@),
{
    if pat.len() > hi - at {
        return false;
    }
    let mut k: usize = 0;
    while k < pat.len()
        invariant
            pat@.len() <= hi - at,
            at <= hi <= s@.len(),
            k <= pat@.len(),
            forall|m: int| 0 <= m < k ==> s@[at + m] == pat@[m],
        decreases pat@.len() - k,
    {
        if s.get_char(at + k) != pat[k] {
            assert(s@.subrange(at as int, at + pat@.len())[k as int] != pat@[k as int]);
            return false;
        }
        k += 1;
    }
    assert(s@.subrange(at as int, at + pat@.len()) =~= pat@);
    true
}

/// Narrows `[lo, hi)` of `s` to drop leading, then trailing whitespace.
fn trim_range(s: &str, lo: usize, hi: usize) -> (r: (usize, usize))
    requires
        lo <= hi <= s@.len(),
    ensures
        lo <= r.0 <= r.1 <= hi,
        s@.subrange(r.0 as int, r.1 as int) == trim_ws(s@.subrange(lo as int, hi as int)),
{
    let mut a = lo;
    while a < hi && is_white_space(s.get_char(a))
        invariant
            lo <= a <= hi <= s@.len(),
            trim_start_ws(s@.subrange(a as int, hi as int)) == trim_start_ws(s@.subrange(lo as int, hi as int)),
        decreases hi - a,
    {
        assert(s@.subrange(a as int, hi as int).drop_first() =~= s@.subrange(a + 1, hi as int));
        a += 1;
    }
    let mut b = hi;
    while b > a && is_white_space(s.get_char(b - 1))
        invariant
            a <= b <= hi,
            hi <= s@.len(),
            trim_end_ws(s@.subrange(a as int, b as int)) == trim_ws(s@.subrange(lo as int, hi as int)),
        decreases b - a,
    {
        assert(s@.subrange(a as int, b as int).drop_last() =~= s@.subrange(a as int, b - 1));
        b -= 1;
    }
    (a, b)
}

/// The reply with surrounding whitespace and Markdown code fences removed.
pub fn sanitize_json(input: &str) -> (r: String)
    ensures
        r@ == sanitized(input@),
{
    let n = input.unicode_len();
    proof {
        assert(input@.subrange(0, n as int) =~= input@);
    }
    let (mut lo, mut hi) = trim_range(input, 0, n);
    let json_open: Vec<char> = vec!['`', '`', '`', 'j', 's', 'o', 'n'];
    let open: Vec<char> = vec!['`', '`', '`'];
    proof {
        assert(json_open@ =~= json_fence());
        assert(open@ =~= fence());
    }
    let ghost first = trim_ws(input@);
    while occurs_at(input, lo, hi, &json_open)
        invariant
            lo <= hi <= input@.len(),
            json_open@ == json_fence(),
            strip_leading(input@.subrange(lo as int, hi as int), json_fence()) == strip_leading(first, json_fence()),
        decreases hi - lo,
    {
        let ghost cur = input@.subrange(lo as int, hi as int);
        assert(cur.take(7) =~= input@.subrange(lo as int, lo + 7));
        assert(cur.skip(7) =~= input@.subrange(lo + 7, hi as int));
        lo += 7;
    }
    proof {
        let cur = input@.subrange(lo as int, hi as int);
        if 7 <= cur.len() {
            assert(cur.take(7) =~= input@.subrange(lo as int, lo + 7));
        }
    }
    let ghost second = strip_leading(first, json_fence());
    while occurs_at(input, lo, hi, &open)
        invariant
            lo <= hi <= input@.len(),
            open@ == fence(),
            strip_leading(input@.subrange(lo as int, hi as int), fence()) == strip_leading(second, fence()),
        decreases hi - lo,
    {
        let ghost cur = input@.subrange(lo as int, hi as int);
        assert(cur.take(3) =~= input@.subrange(lo as int, lo + 3));
        assert(cur.skip(3) =~= input@.subrange(lo + 3, hi as int));
        lo += 3;
    }
    proof {
        let cur = input@.subrange(lo as int, hi as int);
        if 3 <= cur.len() {
            assert(cur.take(3) =~= input@.subrange(lo as int, lo + 3));
        }
    }
    let ghost third = strip_leading(second, fence());
    while hi - lo >= 3 && occurs_at(input, hi - 3, hi, &open)
        invariant
            lo <= hi <= input@.len(),
            open@ == fence(),
            strip_trailing(input@.subrange(lo as int, hi as int), fence()) == strip_trailing(third, fence()),
        decreases hi - lo,
    {
        let ghost cur = input@.subrange(lo as int, hi as int);
        assert(cur.skip(cur.len() - 3) =~= input@.subrange(hi - 3, hi as int));
        assert(cur.take(cur.len() - 3) =~= input@.subrange(lo as int, hi - 3));
        hi -= 3;
    }
    proof {
        let cur = input@.subrange(lo as int, hi as int);
        if 3 <= cur.len() {
            assert(cur.skip(cur.len() - 3) =~= input@.subrange(hi - 3, hi as int));
        }
    }
    let (a, b) = trim_range(input, lo, hi);
    input.substring_char(a, b).to_string()
}

} // verus!
