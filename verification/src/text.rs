//! Character-level text helpers: the whitespace predicate, scans for token
//! and line boundaries, and trimming, each with an executable form proved
//! against its specification.

use vstd::prelude::*;

verus! {

/// The Unicode `White_Space` code points, the set that `str::trim` and
/// `str::split_whitespace` delimit by.
pub open spec fn is_ws_char(c: char) -> bool {
    let u = c as u32;
    u == 0x9 || u == 0xA || u == 0xB || u == 0xC || u == 0xD || u == 0x20 || u == 0x85
        || u == 0xA0 || u == 0x1680 || (0x2000 <= u && u <= 0x200A) || u == 0x2028
        || u == 0x2029 || u == 0x202F || u == 0x205F || u == 0x3000
}

pub fn is_ws(c: char) -> (r: bool)
    ensures
        r == is_ws_char(c),
{
    let u = c as u32;
    u == 0x9 || u == 0xA || u == 0xB || u == 0xC || u == 0xD || u == 0x20 || u == 0x85
        || u == 0xA0 || u == 0x1680 || (0x2000 <= u && u <= 0x200A) || u == 0x2028
        || u == 0x2029 || u == 0x202F || u == 0x205F || u == 0x3000
}

/// Index of the first non-whitespace character at or after `i`, or `s.len()`.
pub open spec fn scan_non_ws(s: Seq<char>, i: int) -> int
    decreases s.len() - i,
{
    if i < 0 || i >= s.len() {
        s.len() as int
    } else if !is_ws_char(s[i]) {
        i
    } else {
        scan_non_ws(s, i + 1)
    }
}

/// Index of the first whitespace character at or after `i`, or `s.len()`:
/// the exclusive end of the token starting at `i`.
pub open spec fn scan_token_end(s: Seq<char>, i: int) -> int
    decreases s.len() - i,
{
    if i < 0 || i >= s.len() {
        s.len() as int
    } else if is_ws_char(s[i]) {
        i
    } else {
        scan_token_end(s, i + 1)
    }
}

/// Index of the first line feed at or after `i`, or `s.len()`: the exclusive
/// end of the line starting at `i`.
pub open spec fn scan_line_end(s: Seq<char>, i: int) -> int
    decreases s.len() - i,
{
    if i < 0 || i >= s.len() {
        s.len() as int
    } else if s[i] == '\n' {
        i
    } else {
        scan_line_end(s, i + 1)
    }
}

/// Exclusive end of `s.subrange(0, i)` once trailing whitespace is dropped.
pub open spec fn trim_end_idx(s: Seq<char>, i: int) -> int
    decreases i,
{
    if i <= 0 || i > s.len() {
        0
    } else if is_ws_char(s[i - 1]) {
        trim_end_idx(s, i - 1)
    } else {
        i
    }
}

/// `s` with leading and trailing whitespace removed, as `str::trim` does.
pub open spec fn trim_ws(s: Seq<char>) -> Seq<char> {
    let a = scan_non_ws(s, 0);
    let b = trim_end_idx(s, s.len() as int);
    if a >= b {
        Seq::empty()
    } else {
        s.subrange(a, b)
    }
}

pub proof fn lemma_scan_non_ws(s: Seq<char>, i: int)
    requires
        0 <= i <= s.len(),
    ensures
        i <= scan_non_ws(s, i) <= s.len(),
        forall|j: int| i <= j < scan_non_ws(s, i) ==> is_ws_char(s[j]),
        scan_non_ws(s, i) < s.len() ==> !is_ws_char(s[scan_non_ws(s, i)]),
    decreases s.len() - i,
{
    if i < s.len() && is_ws_char(s[i]) {
        lemma_scan_non_ws(s, i + 1);
    }
}

pub proof fn lemma_scan_token_end(s: Seq<char>, i: int)
    requires
        0 <= i <= s.len(),
    ensures
        i <= scan_token_end(s, i) <= s.len(),
        forall|j: int| i <= j < scan_token_end(s, i) ==> !is_ws_char(s[j]),
        scan_token_end(s, i) < s.len() ==> is_ws_char(s[scan_token_end(s, i)]),
    decreases s.len() - i,
{
    if i < s.len() && !is_ws_char(s[i]) {
        lemma_scan_token_end(s, i + 1);
    }
}

pub proof fn lemma_scan_line_end(s: Seq<char>, i: int)
    requires
        0 <= i <= s.len(),
    ensures
        i <= scan_line_end(s, i) <= s.len(),
        forall|j: int| i <= j < scan_line_end(s, i) ==> s[j] != '\n',
        scan_line_end(s, i) < s.len() ==> s[scan_line_end(s, i)] == '\n',
    decreases s.len() - i,
{
    if i < s.len() && s[i] != '\n' {
        lemma_scan_line_end(s, i + 1);
    }
}

pub proof fn lemma_trim_end_idx(s: Seq<char>, i: int)
    requires
        0 <= i <= s.len(),
    ensures
        0 <= trim_end_idx(s, i) <= i,
        forall|j: int| trim_end_idx(s, i) <= j < i ==> is_ws_char(s[j]),
        trim_end_idx(s, i) > 0 ==> !is_ws_char(s[trim_end_idx(s, i) - 1]),
    decreases i,
{
    if i > 0 && is_ws_char(s[i - 1]) {
        lemma_trim_end_idx(s, i - 1);
    }
}

pub fn find_non_ws(s: &str, from: usize) -> (r: usize)
    requires
        from <= s@.len(),
    ensures
        r == scan_non_ws(s@, from as int),
        from <= r <= s@.len(),
{
    let n = s.unicode_len();
    let mut i: usize = from;
    loop
        invariant
            from <= i <= n,
            n == s@.len(),
            scan_non_ws(s@, from as int) == scan_non_ws(s@, i as int),
        decreases n - i,
    {
        if i == n {
            return i;
        }
        if !is_ws(s.get_char(i)) {
            return i;
        }
        i = i + 1;
    }
}

pub fn find_token_end(s: &str, from: usize) -> (r: usize)
    requires
        from <= s@.len(),
    ensures
        r == scan_token_end(s@, from as int),
        from <= r <= s@.len(),
{
    let n = s.unicode_len();
    let mut i: usize = from;
    loop
        invariant
            from <= i <= n,
            n == s@.len(),
            scan_token_end(s@, from as int) == scan_token_end(s@, i as int),
        decreases n - i,
    {
        if i == n {
            return i;
        }
        if is_ws(s.get_char(i)) {
            return i;
        }
        i = i + 1;
    }
}

pub fn find_line_end(s: &str, from: usize) -> (r: usize)
    requires
        from <= s@.len(),
    ensures
        r == scan_line_end(s@, from as int),
        from <= r <= s@.len(),
{
    let n = s.unicode_len();
    let mut i: usize = from;
    loop
        invariant
            from <= i <= n,
            n == s@.len(),
            scan_line_end(s@, from as int) == scan_line_end(s@, i as int),
        decreases n - i,
    {
        if i == n {
            return i;
        }
        if s.get_char(i) == '\n' {
            return i;
        }
        i = i + 1;
    }
}

pub fn find_trim_end(s: &str) -> (r: usize)
    ensures
        r == trim_end_idx(s@, s@.len() as int),
        r <= s@.len(),
{
    let n = s.unicode_len();
    let mut i: usize = n;
    loop
        invariant
            i <= n,
            n == s@.len(),
            trim_end_idx(s@, n as int) == trim_end_idx(s@, i as int),
        decreases i,
    {
        if i == 0 {
            return 0;
        }
        if !is_ws(s.get_char(i - 1)) {
            return i;
        }
        i = i - 1;
    }
}

/// Character-wise string equality, tied to view equality.
pub fn str_eq(a: &str, b: &str) -> (r: bool)
    ensures
        r == (a@ == b@),
{
    let na = a.unicode_len();
    let nb = b.unicode_len();
    if na != nb {
        return false;
    }
    let mut i: usize = 0;
    loop
        invariant
            i <= na,
            na == a@.len(),
            na == b@.len(),
            forall|j: int| 0 <= j < i ==> a@[j] == b@[j],
        decreases na - i,
    {
        if i == na {
            proof {
                assert(a@ =~= b@);
            }
            return true;
        }
        if a.get_char(i) != b.get_char(i) {
            return false;
        }
        i = i + 1;
    }
}

/// `s.subrange(from, to)` with surrounding whitespace removed, as an owned
/// string.
pub fn trim_substring(s: &str, from: usize, to: usize) -> (r: String)
    requires
        from <= to <= s@.len(),
    ensures
        r@ == trim_ws(s@.subrange(from as int, to as int)),
{
    let sub = s.substring_char(from, to);
    let a = find_non_ws(sub, 0);
    let b = find_trim_end(sub);
    if a >= b {
        String::new()
    } else {
        String::from_str(sub.substring_char(a, b))
    }
}

} // verus!
