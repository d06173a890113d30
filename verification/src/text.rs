//! Character-level text handling: prefixes, substrings, decimal numbers and
//! the case mappings of the standard library.

use vstd::prelude::*;
use vstd::string::*;

verus! {

/// `p` is a prefix of `s`.
pub open spec fn starts_with(s: Seq<char>, p: Seq<char>) -> bool {
    p.len() <= s.len() && s.subrange(0, p.len() as int) == p
}

/// `p` occurs in `s` starting at position `i`.
pub open spec fn occurs_at(s: Seq<char>, p: Seq<char>, i: int) -> bool {
    0 <= i && i + p.len() <= s.len() && s.subrange(i, i + p.len()) == p
}

/// `p` occurs somewhere in `s` (the empty text occurs everywhere).
pub open spec fn occurs_in(s: Seq<char>, p: Seq<char>) -> bool {
    exists|i: int| occurs_at(s, p, i)
}

/// The decimal digit for `d` (0 to 9).
pub open spec fn digit_char(d: nat) -> char {
    if d == 0 {
        '0'
    } else if d == 1 {
        '1'
    } else if d == 2 {
        '2'
    } else if d == 3 {
        '3'
    } else if d == 4 {
        '4'
    } else if d == 5 {
        '5'
    } else if d == 6 {
        '6'
    } else if d == 7 {
        '7'
    } else if d == 8 {
        '8'
    } else {
        '9'
    }
}

/// The decimal rendering of `n`, without sign or leading zeros.
pub open spec fn decimal(n: nat) -> Seq<char>
    decreases n,
{
    if n < 10 {
        seq![digit_char(n)]
    } else {
        decimal(n / 10).push(digit_char(n % 10))
    }
}

/// What `str::to_uppercase` gives for a text.
pub uninterp spec fn uppercase_of(s: Seq<char>) -> Seq<char>;

/// What `str::to_lowercase` gives for a text.
pub uninterp spec fn lowercase_of(s: Seq<char>) -> Seq<char>;

/// Calls `str::to_uppercase`, the Unicode upper-case mapping of the standard
/// library.  The contract only names its result; the mapping itself is not
/// written out here.
#[verifier::external_body]
pub(crate) fn to_upper(s: &str) -> (r: String)
    ensures
        r@ == uppercase_of(s@),
{
    s.to_uppercase()
}

/// Calls `str::to_lowercase`, the Unicode lower-case mapping of the standard
/// library.  The contract only names its result; the mapping itself is not
/// written out here.
#[verifier::external_body]
pub(crate) fn to_lower(s: &str) -> (r: String)
    ensures
        r@ == lowercase_of(s@),
{
    s.to_lowercase()
}

/// The one-digit text for `d`.
fn digit_str(d: u64) -> (s: &'static str)
    requires
        d < 10,
    ensures
        s@ == seq![digit_char(d as nat)],
{
    let s = if d == 0 {
        "0"
    } else if d == 1 {
        "1"
    } else if d == 2 {
        "2"
    } else if d == 3 {
        "3"
    } else if d == 4 {
        "4"
    } else if d == 5 {
        "5"
    } else if d == 6 {
        "6"
    } else if d == 7 {
        "7"
    } else if d == 8 {
        "8"
    } else {
        "9"
    };
    proof {
        reveal_strlit("0");
        reveal_strlit("1");
        reveal_strlit("2");
        reveal_strlit("3");
        reveal_strlit("4");
        reveal_strlit("5");
        reveal_strlit("6");
        reveal_strlit("7");
        reveal_strlit("8");
        reveal_strlit("9");
    }
    assert(s@ =~= seq![digit_char(d as nat)]);
    s
}

/// The decimal rendering of `n`, as `u64::to_string` gives it.
pub fn decimal_string(n: u64) -> (s: String)
    ensures
        s@ == decimal(n as nat),
{
    let mut m: u64 = n / 10;
    let mut acc = String::from_str(digit_str(n % 10));
    assert(decimal(n as nat) == if m == 0 { acc@ } else { decimal(m as nat) + acc@ }) by {
        if n >= 10 {
            assert(decimal(n as nat) =~= decimal(m as nat) + acc@);
        }
    }
    while m > 0
        invariant
            decimal(n as nat) == if m == 0 { acc@ } else { decimal(m as nat) + acc@ },
        decreases m,
    {
        let d = m % 10;
        let ghost old_acc = acc@;
        acc = String::from_str(digit_str(d)).concat(acc.as_str());
        assert(acc@ =~= seq![digit_char(d as nat)] + old_acc);
        let ghost old_m = m;
        m = m / 10;
        if m > 0 {
            assert(decimal(old_m as nat) == decimal(m as nat).push(digit_char(d as nat)));
            assert(decimal(old_m as nat) + old_acc =~= decimal(m as nat) + acc@);
        } else {
            assert(decimal(old_m as nat) =~= seq![digit_char(d as nat)]);
            assert(decimal(old_m as nat) + old_acc =~= acc@);
        }
    }
    acc
}

/// Whether `p` occurs in `s` at position `i`.
fn matches_at(s: &str, s_len: usize, p: &str, p_len: usize, i: usize) -> (r: bool)
    requires
        s_len == s@.len(),
        p_len == p@.len(),
        i + p_len <= s_len,
    ensures
        r == occurs_at(s@, p@, i as int),
{
    let mut j: usize = 0;
    while j < p_len
        invariant
            s_len == s@.len(),
            p_len == p@.len(),
            i + p_len <= s_len,
            j <= p_len,
            forall|k: int| 0 <= k < j ==> s@[i + k] == p@[k],
        decreases p_len - j,
    {
        if s.get_char(i + j) != p.get_char(j) {
            assert(s@.subrange(i as int, i + p_len)[j as int] != p@[j as int]);
            return false;
        }
        j = j + 1;
    }
    assert(s@.subrange(i as int, i + p_len) =~= p@);
    true
}

/// Whether `s` begins with `p`.
pub fn has_prefix(s: &str, p: &str) -> (r: bool)
    ensures
        r == starts_with(s@, p@),
{
    let s_len = s.unicode_len();
    let p_len = p.unicode_len();
    if p_len > s_len {
        return false;
    }
    matches_at(s, s_len, p, p_len, 0)
}

/// Whether `p` occurs anywhere in `s`.
pub fn has_infix(s: &str, p: &str) -> (r: bool)
    ensures
        r == occurs_in(s@, p@),
{
    let s_len = s.unicode_len();
    let p_len = p.unicode_len();
    if p_len > s_len {
        assert(forall|i: int| !occurs_at(s@, p@, i));
        return false;
    }
    if p_len == 0 {
        assert(s@.subrange(0, 0) =~= p@);
        assert(occurs_at(s@, p@, 0));
        return true;
    }
    let last = s_len - p_len;
    let mut i: usize = 0;
    while i <= last
        invariant
            s_len == s@.len(),
            p_len == p@.len(),
            last == s_len - p_len,
            0 < p_len <= s_len,
            forall|k: int| 0 <= k < i ==> !occurs_at(s@, p@, k),
        decreases last + 1 - i,
    {
        if matches_at(s, s_len, p, p_len, i) {
            return true;
        }
        i = i + 1;
    }
    assert forall|k: int| !occurs_at(s@, p@, k) by {
        if 0 <= k && k + p_len <= s_len {
            assert(k < i);
        }
    }
    false
}

} // verus!
