//! Character-level scanning helpers shared by the two recognisers.

use vstd::prelude::*;

verus! {

/// Whitespace, as the grammar understands it.
pub open spec fn is_ws_char(c: char) -> bool {
    c == ' ' || c == '\t' || c == '\n' || c == '\r' || c == '\x0b' || c == '\x0c'
}

/// Runtime check for [`is_ws_char`].
pub fn is_ws(c: char) -> (b: bool)
    ensures
        b == is_ws_char(c),
{
    c == ' ' || c == '\t' || c == '\n' || c == '\r' || c == '\x0b' || c == '\x0c'
}

/// Index of the first occurrence of `c` in `s` at or after `i`.
pub open spec fn find_from(s: Seq<char>, i: int, c: char) -> Option<int>
    decreases s.len() - i,
{
    if i < 0 || i >= s.len() {
        None
    } else if s[i] == c {
        Some(i)
    } else {
        find_from(s, i + 1, c)
    }
}

/// Runtime counterpart of [`find_from`].
pub fn find_char(v: &Vec<char>, i: usize, c: char) -> (r: Option<usize>)
    requires
        i <= v@.len(),
    ensures
        match r {
            Some(j) => i <= j < v@.len() && find_from(v@, i as int, c) == Some(j as int),
            None => find_from(v@, i as int, c) is None,
        },
{
    let mut j = i;
    while j < v.len()
        invariant
            i <= j <= v@.len(),
            find_from(v@, i as int, c) == find_from(v@, j as int, c),
        decreases v@.len() - j,
    {
        if v[j] == c {
            return Some(j);
        }
        j = j + 1;
    }
    None
}

/// Index of the first whitespace character in `s` at or after `i`.
pub open spec fn find_ws_from(s: Seq<char>, i: int) -> Option<int>
    decreases s.len() - i,
{
    if i < 0 || i >= s.len() {
        None
    } else if is_ws_char(s[i]) {
        Some(i)
    } else {
        find_ws_from(s, i + 1)
    }
}

/// Runtime counterpart of [`find_ws_from`].
pub fn find_ws(v: &Vec<char>, i: usize) -> (r: Option<usize>)
    requires
        i <= v@.len(),
    ensures
        match r {
            Some(j) => i <= j < v@.len() && find_ws_from(v@, i as int) == Some(j as int),
            None => find_ws_from(v@, i as int) is None,
        },
{
    let mut j = i;
    while j < v.len()
        invariant
            i <= j <= v@.len(),
            find_ws_from(v@, i as int) == find_ws_from(v@, j as int),
        decreases v@.len() - j,
    {
        if is_ws(v[j]) {
            return Some(j);
        }
        j = j + 1;
    }
    None
}

/// The literal `lit` occurs in `s` starting exactly at `i`.
pub open spec fn lit_at(s: Seq<char>, i: int, lit: Seq<char>) -> bool {
    0 <= i && i + lit.len() <= s.len() && s.subrange(i, i + lit.len()) == lit
}

/// Runtime check for [`lit_at`].
pub fn is_lit_at(v: &Vec<char>, i: usize, lit: &str) -> (b: bool)
    ensures
        b == lit_at(v@, i as int, lit@),
{
    let n = lit.unicode_len();
    let vlen = v.len();
    if i > vlen || n > vlen - i {
        assert(!lit_at(v@, i as int, lit@));
        return false;
    }
    let mut k: usize = 0;
    while k < n
        invariant
            0 <= k <= n,
            i + n <= vlen,
            vlen == v@.len(),
            n == lit@.len(),
            forall|m: int| 0 <= m < k ==> v@[i + m] == lit@[m],
        decreases n - k,
    {
        if v[i + k] != lit.get_char(k) {
            assert(!lit_at(v@, i as int, lit@)) by {
                assert(v@[i + k] != lit@[k as int]);
            }
            return false;
        }
        k = k + 1;
    }
    assert(v@.subrange(i as int, i + n) =~= lit@);
    true
}

/// The characters of `s`, as a vector.
pub fn to_chars(s: &str) -> (v: Vec<char>)
    ensures
        v@ == s@,
{
    let n = s.unicode_len();
    let mut v: Vec<char> = Vec::new();
    let mut i: usize = 0;
    while i < n
        invariant
            0 <= i <= n,
            n == s@.len(),
            v@ == s@.take(i as int),
        decreases n - i,
    {
        v.push(s.get_char(i));
        assert(v@ =~= s@.take(i + 1));
        i = i + 1;
    }
    assert(v@ =~= s@);
    v
}

/// The substring of `s` covering character positions `a..b`.
pub fn extract(s: &str, a: usize, b: usize) -> (r: String)
    requires
        a <= b <= s@.len(),
    ensures
        r@ == s@.subrange(a as int, b as int),
{
    String::from_str(s.substring_char(a, b))
}

} // verus!
