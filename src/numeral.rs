//! The grammar of numeric literals: an optional sign, digits that may be
//! grouped by commas in threes, and an optional fraction.
use crate::decimal::{all_digits, is_digit, point_index, unsigned_part};
use vstd::prelude::*;

verus! {

/// Digits grouped by commas in threes counted from the right, the leftmost
/// group holding one to three digits: `1,234,567`.
pub open spec fn grouped_digits(s: Seq<char>) -> bool {
    &&& s.len() % 4 != 0
    &&& forall|j: int|
        0 <= j < s.len() ==> if (s.len() - 1 - j) % 4 == 3 {
            #[trigger] s[j] == ','
        } else {
            is_digit(s[j])
        }
}

/// The part before the point: a plain run of digits or a grouped one.
pub open spec fn whole_digits(s: Seq<char>) -> bool {
    (s.len() > 0 && all_digits(s)) || grouped_digits(s)
}

/// A numeric literal: an optional `+` or `-`, then a whole part with an
/// optional fraction (`.` and digits), or a fraction alone.
pub open spec fn numeric_literal(s: Seq<char>) -> bool {
    let u = unsigned_part(s);
    let k = point_index(u);
    if k == u.len() {
        whole_digits(u.take(k as int))
    } else {
        &&& (k == 0 || whole_digits(u.take(k as int)))
        &&& u.len() > k + 1
        &&& all_digits(u.skip(k + 1 as int))
    }
}

/// The literal with its grouping commas taken out.
pub open spec fn without_commas(s: Seq<char>) -> Seq<char>
    decreases s.len(),
{
    if s.len() == 0 {
        s
    } else if s.last() == ',' {
        without_commas(s.drop_last())
    } else {
        without_commas(s.drop_last()).push(s.last())
    }
}

/// The first `.` of `s` stands at `k` when none stands before it.
pub proof fn lemma_point_index(s: Seq<char>, k: int)
    requires
        0 <= k <= s.len(),
        forall|j: int| 0 <= j < k ==> s[j] != '.',
        k == s.len() || s[k] == '.',
    ensures
        point_index(s) == k,
    decreases k,
{
    if k > 0 {
        assert(s.len() > 0 && s[0] != '.');
        let t = s.skip(1);
        assert forall|j: int| 0 <= j < k - 1 implies t[j] != '.' by {
            assert(t[j] == s[j + 1]);
        }
        lemma_point_index(t, k - 1);
    }
}

/// Relies on `str::chars`: the characters of `s`, in order.
#[verifier::external_body]
pub(crate) fn chars_of(s: &str) -> (r: Vec<char>)
    ensures
        r@ == s@,
{
    s.chars().collect()
}

/// Relies on `FromIterator<char>` for `String`: the characters, in order.
#[verifier::external_body]
pub(crate) fn string_of(cs: &[char]) -> (r: String)
    ensures
        r@ == cs@,
{
    cs.iter().collect()
}

/// Whether `s[lo..hi]` holds digits only.
fn digits_between(s: &Vec<char>, lo: usize, hi: usize) -> (r: bool)
    requires
        lo <= hi <= s@.len(),
    ensures
        r == all_digits(s@.subrange(lo as int, hi as int)),
{
    let mut j = lo;
    while j < hi
        invariant
            lo <= j <= hi <= s@.len(),
            forall|i: int| lo <= i < j ==> is_digit(s@[i]),
        decreases hi - j,
    {
        if !(s[j] >= '0' && s[j] <= '9') {
            assert(!is_digit(s@.subrange(lo as int, hi as int)[j - lo]));
            return false;
        }
        j += 1;
    }
    assert forall|i: int| 0 <= i < hi - lo implies is_digit(#[trigger] s@.subrange(lo as int, hi as int)[i]) by {
        assert(s@.subrange(lo as int, hi as int)[i] == s@[lo + i]);
    }
    true
}

/// Whether `s[lo..hi]` is grouped by commas in threes.
fn grouped_between(s: &Vec<char>, lo: usize, hi: usize) -> (r: bool)
    requires
        lo <= hi <= s@.len(),
    ensures
        r == grouped_digits(s@.subrange(lo as int, hi as int)),
{
    let ghost t = s@.subrange(lo as int, hi as int);
    let len = hi - lo;
    if len % 4 == 0 {
        return false;
    }
    let mut j = lo;
    while j < hi
        invariant
            lo <= j <= hi <= s@.len(),
            len == hi - lo,
            t == s@.subrange(lo as int, hi as int),
            forall|i: int|
                0 <= i < j - lo ==> if (len - 1 - i) % 4 == 3 {
                    #[trigger] t[i] == ','
                } else {
                    is_digit(t[i])
                },
        decreases hi - j,
    {
        let c = s[j];
        assert(t[j - lo] == c);
        if (hi - 1 - j) % 4 == 3 {
            if c != ',' {
                return false;
            }
        } else if !(c >= '0' && c <= '9') {
            return false;
        }
        j += 1;
    }
    true
}

/// Whether `s[lo..hi]` is a whole part.
fn whole_between(s: &Vec<char>, lo: usize, hi: usize) -> (r: bool)
    requires
        lo <= hi <= s@.len(),
    ensures
        r == whole_digits(s@.subrange(lo as int, hi as int)),
{
    (lo < hi && digits_between(s, lo, hi)) || grouped_between(s, lo, hi)
}

/// Whether the characters `s` form a numeric literal.
pub fn is_numeric_literal(s: &Vec<char>) -> (r: bool)
    ensures
        r == numeric_literal(s@),
{
    let n = s.len();
    let start: usize = if n > 0 && (s[0] == '+' || s[0] == '-') {
        1
    } else {
        0
    };
    let ghost u = unsigned_part(s@);
    assert(u =~= s@.subrange(start as int, n as int));
    let mut k = start;
    while k < n && s[k] != '.'
        invariant
            start <= k <= n == s@.len(),
            forall|j: int| start <= j < k ==> s@[j] != '.',
        decreases n - k,
    {
        k += 1;
    }
    proof {
        assert forall|j: int| 0 <= j < k - start implies u[j] != '.' by {
            assert(u[j] == s@[start + j]);
        }
        lemma_point_index(u, k - start);
        assert(u.take(k - start) =~= s@.subrange(start as int, k as int));
    }
    if k == n {
        whole_between(s, start, k)
    } else {
        proof {
            assert(u.skip(k - start + 1) =~= s@.subrange(k + 1, n as int));
        }
        let whole_ok = k == start || whole_between(s, start, k);
        whole_ok && n > k + 1 && digits_between(s, k + 1, n)
    }
}

/// The characters `s` without their commas.
pub fn drop_commas(s: &Vec<char>) -> (r: Vec<char>)
    ensures
        r@ == without_commas(s@),
{
    let mut out: Vec<char> = Vec::new();
    let mut i: usize = 0;
    while i < s.len()
        invariant
            i <= s@.len(),
            out@ == without_commas(s@.take(i as int)),
        decreases s@.len() - i,
    {
        assert(s@.take(i + 1).drop_last() =~= s@.take(i as int));
        if s[i] != ',' {
            out.push(s[i]);
        }
        i += 1;
    }
    assert(s@.take(s@.len() as int) =~= s@);
    out
}

} // verus!
