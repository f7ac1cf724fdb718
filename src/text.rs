//! Byte-level helpers: searching, ASCII case folding, numbers in text.
use vstd::prelude::*;

verus! {

/// The first index at or after `i` where `pat` occurs in `s`.
pub open spec fn find_from(s: Seq<u8>, pat: Seq<u8>, i: int) -> Option<int>
    decreases s.len() + 1 - i,
{
    if i < 0 || i + pat.len() > s.len() {
        None
    } else if s.subrange(i, i + pat.len()) == pat {
        Some(i)
    } else {
        find_from(s, pat, i + 1)
    }
}

pub proof fn lemma_find_from_bounds(s: Seq<u8>, pat: Seq<u8>, i: int)
    ensures
        find_from(s, pat, i) is Some ==> i <= find_from(s, pat, i).unwrap()
            && find_from(s, pat, i).unwrap() + pat.len() <= s.len()
            && s.subrange(find_from(s, pat, i).unwrap(), find_from(s, pat, i).unwrap() + pat.len()) == pat,
    decreases s.len() + 1 - i,
{
    if i < 0 || i + pat.len() > s.len() {
    } else if s.subrange(i, i + pat.len()) == pat {
    } else {
        lemma_find_from_bounds(s, pat, i + 1);
    }
}

/// Whether `pat` occurs in `s` at index `i`.
fn matches_at(s: &[u8], pat: &[u8], i: usize) -> (r: bool)
    requires
        i + pat@.len() <= s@.len(),
    ensures
        r == (s@.subrange(i as int, i + pat@.len()) == pat@),
{
    let n: usize = s.len();
    let mut k: usize = 0;
    while k < pat.len()
        invariant
            n == s@.len(),
            k <= pat@.len(),
            i + pat@.len() <= s@.len(),
            forall|m: int| 0 <= m < k ==> s@[i + m] == pat@[m],
        decreases pat@.len() - k,
    {
        if s[i + k] != pat[k] {
            assert(s@.subrange(i as int, i + pat@.len())[k as int] != pat@[k as int]);
            return false;
        }
        k = k + 1;
    }
    assert(s@.subrange(i as int, i + pat@.len()) =~= pat@);
    true
}

/// The first occurrence of `pat` in `s` at or after `from`.
pub fn find(s: &[u8], pat: &[u8], from: usize) -> (r: Option<usize>)
    requires
        pat@.len() > 0,
    ensures
        r matches Some(j) ==> find_from(s@, pat@, from as int) == Some(j as int),
        r is None ==> find_from(s@, pat@, from as int) is None,
{
    let mut i: usize = from;
    if pat.len() > s.len() {
        return None;
    }
    while i <= s.len() - pat.len()
        invariant
            pat@.len() > 0,
            pat@.len() <= s@.len(),
            from <= i,
            find_from(s@, pat@, from as int) == find_from(s@, pat@, i as int),
        decreases s@.len() + 1 - i,
    {
        if matches_at(s, pat, i) {
            return Some(i);
        }
        i = i + 1;
    }
    None
}

/// ASCII lower case of one byte.
pub open spec fn lower(b: u8) -> u8 {
    if 65 <= b <= 90 { (b + 32) as u8 } else { b }
}

/// Equality of two byte strings, ASCII letters compared without case.
pub open spec fn eq_ignore_case(a: Seq<u8>, b: Seq<u8>) -> bool {
    a.len() == b.len() && forall|i: int| 0 <= i < a.len() ==> lower(a[i]) == lower(b[i])
}

fn lower_byte(b: u8) -> (r: u8)
    ensures
        r == lower(b),
{
    if 65 <= b && b <= 90 { b + 32 } else { b }
}

/// Compares two byte strings, ASCII letters without case.
pub fn bytes_eq_ignore_case(a: &[u8], b: &[u8]) -> (r: bool)
    ensures
        r == eq_ignore_case(a@, b@),
{
    if a.len() != b.len() {
        return false;
    }
    let mut i: usize = 0;
    while i < a.len()
        invariant
            a@.len() == b@.len(),
            i <= a@.len(),
            forall|k: int| 0 <= k < i ==> lower(a@[k]) == lower(b@[k]),
        decreases a@.len() - i,
    {
        if lower_byte(a[i]) != lower_byte(b[i]) {
            return false;
        }
        i = i + 1;
    }
    true
}

/// Optional whitespace: space or horizontal tab.
pub open spec fn is_ows(b: u8) -> bool {
    b == 32 || b == 9
}

/// The first index at or after `i` that holds no whitespace (or the length).
pub open spec fn skip_ows(s: Seq<u8>, i: int) -> int
    decreases s.len() - i,
{
    if i < 0 || i >= s.len() || !is_ows(s[i]) { i } else { skip_ows(s, i + 1) }
}

/// The end of `s` once whitespace before `j` is dropped, never below `lo`.
pub open spec fn trim_end(s: Seq<u8>, lo: int, j: int) -> int
    decreases j - lo,
{
    if j <= lo || j > s.len() || !is_ows(s[j - 1]) { j } else { trim_end(s, lo, j - 1) }
}

/// `s` without leading and trailing whitespace.
pub open spec fn trim(s: Seq<u8>) -> Seq<u8> {
    let a = skip_ows(s, 0);
    s.subrange(a, trim_end(s, a, s.len() as int))
}

proof fn lemma_skip_ows_bounds(s: Seq<u8>, i: int)
    requires
        0 <= i <= s.len(),
    ensures
        i <= skip_ows(s, i) <= s.len(),
    decreases s.len() - i,
{
    if i < s.len() && is_ows(s[i]) {
        lemma_skip_ows_bounds(s, i + 1);
    }
}

/// The bounds of `s[lo..hi]` without its surrounding whitespace.
pub fn trim_bounds(s: &[u8], lo: usize, hi: usize) -> (r: (usize, usize))
    requires
        lo <= hi <= s@.len(),
    ensures
        lo <= r.0 <= r.1 <= hi,
        s@.subrange(r.0 as int, r.1 as int) == trim(s@.subrange(lo as int, hi as int)),
{
    let ghost t = s@.subrange(lo as int, hi as int);
    let mut a: usize = lo;
    while a < hi && (s[a] == 32 || s[a] == 9)
        invariant
            lo <= a <= hi <= s@.len(),
            t == s@.subrange(lo as int, hi as int),
            skip_ows(t, 0) == skip_ows(t, a - lo),
        decreases hi - a,
    {
        a = a + 1;
    }
    proof {
        lemma_skip_ows_bounds(t, a - lo);
    }
    let mut b: usize = hi;
    while b > a && (s[b - 1] == 32 || s[b - 1] == 9)
        invariant
            lo <= a <= b <= hi <= s@.len(),
            t == s@.subrange(lo as int, hi as int),
            skip_ows(t, 0) == a - lo,
            trim_end(t, a - lo, t.len() as int) == trim_end(t, a - lo, b - lo),
        decreases b - a,
    {
        b = b - 1;
    }
    assert(s@.subrange(a as int, b as int) =~= t.subrange(a - lo, b - lo));
    (a, b)
}

/// A byte allowed in a token (method or header name).
pub open spec fn is_tchar(b: u8) -> bool {
    (48 <= b <= 57) || (65 <= b <= 90) || (97 <= b <= 122) || b == 33 || (35 <= b <= 39)
        || b == 42 || b == 43 || b == 45 || b == 46 || b == 94 || b == 95 || b == 96 || b == 124
        || b == 126
}

/// A non-empty run of token bytes.
pub open spec fn is_token(s: Seq<u8>) -> bool {
    s.len() > 0 && forall|i: int| 0 <= i < s.len() ==> is_tchar(s[i])
}

fn tchar(b: u8) -> (r: bool)
    ensures
        r == is_tchar(b),
{
    (48 <= b && b <= 57) || (65 <= b && b <= 90) || (97 <= b && b <= 122) || b == 33 || (35 <= b
        && b <= 39) || b == 42 || b == 43 || b == 45 || b == 46 || b == 94 || b == 95 || b == 96
        || b == 124 || b == 126
}

/// Whether `s[lo..hi]` is a token.
pub fn token_at(s: &[u8], lo: usize, hi: usize) -> (r: bool)
    requires
        lo <= hi <= s@.len(),
    ensures
        r == is_token(s@.subrange(lo as int, hi as int)),
{
    if lo == hi {
        return false;
    }
    let ghost t = s@.subrange(lo as int, hi as int);
    let mut i: usize = lo;
    while i < hi
        invariant
            lo <= i <= hi <= s@.len(),
            t == s@.subrange(lo as int, hi as int),
            forall|k: int| 0 <= k < i - lo ==> is_tchar(t[k]),
        decreases hi - i,
    {
        if !tchar(s[i]) {
            assert(!is_tchar(t[i - lo]));
            return false;
        }
        i = i + 1;
    }
    true
}

/// The value of a digit byte (decimal, or hexadecimal in either case), or -1.
pub open spec fn digit_value(b: u8) -> int {
    if 48 <= b <= 57 {
        b - 48
    } else if 97 <= b <= 102 {
        b - 87
    } else if 65 <= b <= 70 {
        b - 55
    } else {
        -1
    }
}

pub open spec fn is_digit(b: u8, radix: int) -> bool {
    0 <= digit_value(b) < radix
}

/// The value of a string of digits in base `radix`.
pub open spec fn num_value(s: Seq<u8>, radix: int) -> int
    decreases s.len(),
{
    if s.len() == 0 {
        0
    } else {
        num_value(s.drop_last(), radix) * radix + digit_value(s.last())
    }
}

/// A non-empty string of digits in base `radix`.
pub open spec fn is_number(s: Seq<u8>, radix: int) -> bool {
    s.len() > 0 && forall|i: int| 0 <= i < s.len() ==> is_digit(s[i], radix)
}

/// The number that `s` spells in base `radix`, where it fits in 64 bits.
pub open spec fn number(s: Seq<u8>, radix: int) -> Option<u64> {
    if is_number(s, radix) && num_value(s, radix) <= u64::MAX {
        Some(num_value(s, radix) as u64)
    } else {
        None
    }
}

proof fn lemma_num_value_prefix(s: Seq<u8>, radix: int, k: int)
    requires
        radix >= 1,
        0 <= k <= s.len(),
        forall|i: int| 0 <= i < s.len() ==> is_digit(s[i], radix),
    ensures
        0 <= num_value(s.subrange(0, k), radix) <= num_value(s, radix),
    decreases s.len(),
{
    if s.len() == 0 {
        assert(s.subrange(0, k) =~= s);
    } else if k == s.len() {
        assert(s.subrange(0, k) =~= s);
        lemma_num_value_prefix(s.drop_last(), radix, k - 1);
        let v = num_value(s.drop_last(), radix);
        assert(v * radix >= v) by (nonlinear_arith) requires v >= 0, radix >= 1;
    } else {
        lemma_num_value_prefix(s.drop_last(), radix, k);
        assert(s.drop_last().subrange(0, k) =~= s.subrange(0, k));
        lemma_num_value_prefix(s.drop_last(), radix, s.len() - 1);
        assert(s.drop_last().subrange(0, s.len() - 1) =~= s.drop_last());
        let v = num_value(s.drop_last(), radix);
        assert(v * radix >= v) by (nonlinear_arith) requires v >= 0, radix >= 1;
    }
}

fn digit_of(b: u8) -> (r: i8)
    ensures
        r == digit_value(b),
{
    if 48 <= b && b <= 57 {
        (b - 48) as i8
    } else if 97 <= b && b <= 102 {
        (b - 87) as i8
    } else if 65 <= b && b <= 70 {
        (b - 55) as i8
    } else {
        -1
    }
}

/// Reads `s[lo..hi]` as a number in base `radix`.
pub fn parse_number(s: &[u8], lo: usize, hi: usize, radix: u64) -> (r: Option<u64>)
    requires
        lo <= hi <= s@.len(),
        radix == 10 || radix == 16,
    ensures
        r == number(s@.subrange(lo as int, hi as int), radix as int),
{
    let ghost t = s@.subrange(lo as int, hi as int);
    if lo == hi {
        return None;
    }
    let mut v: u64 = 0;
    let mut i: usize = lo;
    while i < hi
        invariant
            lo <= i <= hi <= s@.len(),
            lo < hi,
            radix == 10 || radix == 16,
            t == s@.subrange(lo as int, hi as int),
            forall|k: int| 0 <= k < i - lo ==> is_digit(t[k], radix as int),
            v == num_value(t.subrange(0, i - lo), radix as int),
        decreases hi - i,
    {
        let d = digit_of(s[i]);
        if d < 0 || d as u64 >= radix {
            assert(!is_digit(t[i - lo], radix as int));
            return None;
        }
        assert(t.subrange(0, i + 1 - lo).drop_last() =~= t.subrange(0, i - lo));
        let m = v.checked_mul(radix);
        if m.is_none() {
            proof {
                if is_number(t, radix as int) {
                    lemma_num_value_prefix(t, radix as int, i + 1 - lo);
                }
            }
            return None;
        }
        let n = m.unwrap().checked_add(d as u64);
        if n.is_none() {
            proof {
                if is_number(t, radix as int) {
                    lemma_num_value_prefix(t, radix as int, i + 1 - lo);
                }
            }
            return None;
        }
        v = n.unwrap();
        i = i + 1;
    }
    assert(t.subrange(0, t.len() as int) =~= t);
    Some(v)
}

/// The character of a digit value below 16 (hexadecimal in lower case).
pub open spec fn digit_char(d: int) -> u8 {
    if d < 10 { (48 + d) as u8 } else { (87 + d) as u8 }
}

/// The base of numbers in text: 16 or 10.
pub open spec fn base(hex: bool) -> nat {
    if hex { 16 } else { 10 }
}

/// `n` written without leading zeros, in hexadecimal (lower case) or decimal.
pub open spec fn num_text(n: nat, hex: bool) -> Seq<u8>
    decreases n,
{
    if hex {
        if n < 16 { seq![digit_char(n as int)] } else { num_text(n / 16, hex).push(digit_char((n % 16) as int)) }
    } else {
        if n < 10 { seq![digit_char(n as int)] } else { num_text(n / 10, hex).push(digit_char((n % 10) as int)) }
    }
}

/// Appends `n` written in hexadecimal (lower case) or decimal.
pub fn write_number(n: u64, hex: bool, dst: &mut Vec<u8>)
    ensures
        final(dst)@ == old(dst)@ + num_text(n as nat, hex),
    decreases n,
{
    let radix: u64 = if hex { 16 } else { 10 };
    if n >= radix {
        write_number(n / radix, hex, dst);
    }
    let d = (n % radix) as u8;
    let c: u8 = if d < 10 { 48 + d } else { 87 + d };
    dst.push(c);
    assert(dst@ =~= old(dst)@ + num_text(n as nat, hex));
}

/// A search from `i` stops at `k` where the pattern occurs there and its first
/// byte occurs nowhere in between.
pub proof fn lemma_find_first(s: Seq<u8>, pat: Seq<u8>, i: int, k: int)
    requires
        0 <= i <= k,
        pat.len() > 0,
        k + pat.len() <= s.len(),
        s.subrange(k, k + pat.len()) == pat,
        forall|j: int| i <= j < k ==> s[j] != pat[0],
    ensures
        find_from(s, pat, i) == Some(k),
    decreases k - i,
{
    if i < k {
        assert(s.subrange(i, i + pat.len())[0] == s[i]);
        lemma_find_first(s, pat, i + 1, k);
    }
}

/// Numbers written in hexadecimal read back as themselves.
pub proof fn lemma_hex_text_value(n: nat)
    ensures
        num_text(n, true).len() > 0,
        forall|i: int| 0 <= i < num_text(n, true).len() ==> is_digit(#[trigger] num_text(n, true)[i], 16),
        num_value(num_text(n, true), 16) == n,
    decreases n,
{
    let s = num_text(n, true);
    if n < 16 {
        assert(s.drop_last() =~= Seq::<u8>::empty());
        assert(s.last() == digit_char(n as int));
        assert(digit_value(digit_char(n as int)) == n);
        assert(num_value(s.drop_last(), 16) == 0);
    } else {
        lemma_hex_text_value(n / 16);
        assert(s.drop_last() =~= num_text(n / 16, true));
        let d = (n % 16) as int;
        assert(s.last() == digit_char(d));
        assert(digit_value(digit_char(d)) == d);
        assert(num_value(s, 16) == num_value(num_text(n / 16, true), 16) * 16 + d);
        assert((n / 16) * 16 + n % 16 == n);
    }
}

/// A search from `i` stops at `k` where the pattern occurs there and at no
/// index in between.
pub proof fn lemma_find_at(s: Seq<u8>, pat: Seq<u8>, i: int, k: int)
    requires
        0 <= i <= k,
        k + pat.len() <= s.len(),
        s.subrange(k, k + pat.len()) == pat,
        forall|j: int| i <= j < k ==> #[trigger] s.subrange(j, j + pat.len()) != pat,
    ensures
        find_from(s, pat, i) == Some(k),
    decreases k - i,
{
    if i < k {
        lemma_find_at(s, pat, i + 1, k);
    }
}

/// A value without surrounding whitespace, after one space, trims to itself.
pub proof fn lemma_trim_after_space(v: Seq<u8>)
    requires
        v.len() > 0 ==> !is_ows(v[0]) && !is_ows(v.last()),
    ensures
        trim(seq![32u8] + v) == v,
{
    let s = seq![32u8] + v;
    assert(skip_ows(s, 1) == 1);
    assert(skip_ows(s, 0) == 1);
    assert(trim_end(s, 1, s.len() as int) == s.len());
    assert(s.subrange(1, s.len() as int) =~= v);
}

/// Where the first occurrence from `i` is at `e`, a prefix that ends before
/// that occurrence ends holds none from `i`.
pub proof fn lemma_find_none_in_prefix(s: Seq<u8>, pat: Seq<u8>, i: int, e: int, k: int)
    requires
        0 <= i,
        0 <= k <= s.len(),
        find_from(s, pat, i) == Some(e),
        k < e + pat.len(),
    ensures
        find_from(s.subrange(0, k), pat, i) is None,
    decreases s.len() + 1 - i,
{
    let p = s.subrange(0, k);
    lemma_find_from_bounds(s, pat, i);
    if i + pat.len() <= p.len() {
        assert(p.subrange(i, i + pat.len()) =~= s.subrange(i, i + pat.len()));
        assert(s.subrange(i, i + pat.len()) != pat);
        assert(find_from(s, pat, i) == find_from(s, pat, i + 1));
        lemma_find_none_in_prefix(s, pat, i + 1, e, k);
    }
}

} // verus!
