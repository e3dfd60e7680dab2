//! Character-level pieces of the `lctl get_param` grammar: classes of
//! characters, runs, literals, decimal numbers and lines.

use vstd::prelude::*;
use vstd::std_specs::iter::IteratorSpec;

verus! {

broadcast use {vstd::string::axiom_spec_iter, vstd::string::next_postcondition};

/// `char::is_whitespace`: the Unicode `White_Space` property.
pub open spec fn is_ws(c: char) -> bool {
    ||| c == ' '
    ||| ('\t' <= c && c <= '\r')
    ||| c == '\u{85}'
    ||| c == '\u{a0}'
    ||| c == '\u{1680}'
    ||| ('\u{2000}' <= c && c <= '\u{200a}')
    ||| c == '\u{2028}'
    ||| c == '\u{2029}'
    ||| c == '\u{202f}'
    ||| c == '\u{205f}'
    ||| c == '\u{3000}'
}

pub open spec fn is_digit(c: char) -> bool {
    '0' <= c && c <= '9'
}

/// The classes of characters that the grammar scans runs of.
#[derive(Clone, Copy, PartialEq, Eq, Structural)]
pub enum CharClass {
    /// `char::is_whitespace`.
    Whitespace,
    /// An ASCII digit.
    Digit,
    /// Anything but `\n`.
    NotNewline,
    /// Anything but `:`, `\n` and `=`: the name of a `name: value` line.
    KeyName,
    /// Anything but `.`: a target or controller name.
    NotPeriod,
    /// Anything but whitespace.
    NotWhitespace,
    /// A space, `' '`.
    Space,
    /// Anything but `\n` and `=`.
    NotNewlineOrEquals,
}

pub open spec fn in_class(c: char, k: CharClass) -> bool {
    match k {
        CharClass::Whitespace => is_ws(c),
        CharClass::Digit => is_digit(c),
        CharClass::NotNewline => c != '\n',
        CharClass::KeyName => c != ':' && c != '\n' && c != '=',
        CharClass::NotPeriod => c != '.',
        CharClass::NotWhitespace => !is_ws(c),
        CharClass::Space => c == ' ',
        CharClass::NotNewlineOrEquals => c != '\n' && c != '=',
    }
}

pub fn class_has(c: char, k: CharClass) -> (b: bool)
    ensures
        b == in_class(c, k),
{
    match k {
        CharClass::Whitespace => {
            c == ' ' || ('\t' <= c && c <= '\r') || c == '\u{85}' || c == '\u{a0}' || c
                == '\u{1680}' || ('\u{2000}' <= c && c <= '\u{200a}') || c == '\u{2028}' || c
                == '\u{2029}' || c == '\u{202f}' || c == '\u{205f}' || c == '\u{3000}'
        },
        CharClass::Digit => '0' <= c && c <= '9',
        CharClass::NotNewline => c != '\n',
        CharClass::KeyName => c != ':' && c != '\n' && c != '=',
        CharClass::NotPeriod => c != '.',
        CharClass::NotWhitespace => !(c == ' ' || ('\t' <= c && c <= '\r') || c == '\u{85}' || c
            == '\u{a0}' || c == '\u{1680}' || ('\u{2000}' <= c && c <= '\u{200a}') || c
            == '\u{2028}' || c == '\u{2029}' || c == '\u{202f}' || c == '\u{205f}' || c
            == '\u{3000}'),
        CharClass::Space => c == ' ',
        CharClass::NotNewlineOrEquals => c != '\n' && c != '=',
    }
}

/// The end of the longest run of characters of class `k` starting at `i`.
pub open spec fn scan(s: Seq<char>, i: int, k: CharClass) -> int
    decreases s.len() - i,
{
    if 0 <= i < s.len() && in_class(s[i], k) {
        scan(s, i + 1, k)
    } else {
        i
    }
}

pub proof fn lemma_scan(s: Seq<char>, i: int, k: CharClass)
    requires
        0 <= i <= s.len(),
    ensures
        i <= scan(s, i, k) <= s.len(),
        forall|j: int| i <= j < scan(s, i, k) ==> in_class(#[trigger] s[j], k),
        scan(s, i, k) < s.len() ==> !in_class(s[scan(s, i, k)], k),
    decreases s.len() - i,
{
    if i < s.len() && in_class(s[i], k) {
        lemma_scan(s, i + 1, k);
    }
}

/// Skips the run of class `k` at `i`.
pub fn scan_class(s: &[char], i: usize, k: CharClass) -> (j: usize)
    requires
        i <= s@.len(),
    ensures
        j == scan(s@, i as int, k),
        i <= j <= s@.len(),
{
    let mut j = i;
    while j < s.len() && class_has(s[j], k)
        invariant
            i <= j <= s@.len(),
            scan(s@, i as int, k) == scan(s@, j as int, k),
        decreases s@.len() - j,
    {
        j += 1;
    }
    proof {
        lemma_scan(s@, i as int, k);
    }
    j
}

/// `spaces()`: skips whitespace, newlines included.
pub open spec fn ws(s: Seq<char>, i: int) -> int {
    scan(s, i, CharClass::Whitespace)
}

pub fn skip_ws(s: &[char], i: usize) -> (j: usize)
    requires
        i <= s@.len(),
    ensures
        j == ws(s@, i as int),
        i <= j <= s@.len(),
{
    scan_class(s, i, CharClass::Whitespace)
}

/// Whether `c` stands at `i`.
pub open spec fn char_at(s: Seq<char>, i: int, c: char) -> bool {
    0 <= i < s.len() && s[i] == c
}

pub fn is_char_at(s: &[char], i: usize, c: char) -> (b: bool)
    ensures
        b == char_at(s@, i as int, c),
        b ==> i < s.len(),
{
    i < s.len() && s[i] == c
}

/// Whether the characters of `lit` stand at `i`.
pub open spec fn lit_at(s: Seq<char>, i: int, lit: Seq<char>) -> bool {
    0 <= i && i + lit.len() <= s.len() && s.subrange(i, i + lit.len()) == lit
}

/// Matches the literal `lit` at `i`; the position after it on success.
pub fn match_lit(s: &[char], i: usize, lit: &str) -> (r: Option<usize>)
    requires
        i <= s@.len(),
    ensures
        r is Some <==> lit_at(s@, i as int, lit@),
        r matches Some(j) ==> j == i + lit@.len() && j <= s.len(),
{
    let mut chars = lit.chars();
    let mut j = i;
    let ghost l = lit@;
    loop
        invariant
            i <= j <= s@.len(),
            l == lit@,
            j - i <= l.len(),
            chars.remaining() == l.skip(j - i),
            s@.subrange(i as int, j as int) == l.take(j - i),
            chars.obeys_prophetic_iter_laws(),
        decreases l.len() - (j - i),
    {
        let ghost before = chars;
        let next = chars.next();
        match next {
            None => {
                proof {
                    assert(l.skip(j - i).len() == 0);
                    assert(l.take(j - i) =~= l);
                }
                return Some(j);
            },
            Some(c) => {
                if j < s.len() && s[j] == c {
                    proof {
                        assert(l.skip(j - i)[0] == l[j - i]);
                        assert(s@.subrange(i as int, j + 1) =~= s@.subrange(i as int, j as int).push(s@[j as int]));
                        assert(l.take(j + 1 - i) =~= l.take(j - i).push(l[j - i]));
                        assert(l.skip(j - i).drop_first() =~= l.skip(j + 1 - i));
                    }
                    j += 1;
                } else {
                    proof {
                        if lit_at(s@, i as int, l) {
                            assert(s@.subrange(i as int, i + l.len())[j - i] == s@[j as int]);
                        }
                    }
                    return None;
                }
            },
        }
    }
}

/// The characters of `s`.
pub fn chars_of(s: &str) -> (v: Vec<char>)
    ensures
        v@ == s@,
{
    let mut chars = s.chars();
    let mut v: Vec<char> = Vec::new();
    let ghost l = s@;
    loop
        invariant
            l == s@,
            v@.len() <= l.len(),
            chars.remaining() == l.skip(v@.len() as int),
            v@ == l.take(v@.len() as int),
            chars.obeys_prophetic_iter_laws(),
        decreases l.len() - v@.len(),
    {
        match chars.next() {
            None => {
                proof {
                    assert(l.take(v@.len() as int) =~= l);
                }
                return v;
            },
            Some(c) => {
                proof {
                    assert(l.take(v@.len() as int + 1) =~= l.take(v@.len() as int).push(c));
                    assert(l.skip(v@.len() as int).drop_first() =~= l.skip(v@.len() as int + 1));
                }
                v.push(c);
            },
        }
    }
}

/// The value of a run of ASCII digits, most significant first.
pub open spec fn decimal_value(d: Seq<char>) -> nat
    decreases d.len(),
{
    if d.len() == 0 {
        0
    } else {
        decimal_value(d.drop_last()) * 10 + (d.last() as nat - '0' as nat) as nat
    }
}

proof fn lemma_decimal_value_grows(s: Seq<char>, i: int, j: int, e: int)
    requires
        0 <= i <= j <= e <= s.len(),
        forall|k: int| i <= k < e ==> is_digit(#[trigger] s[k]),
    ensures
        decimal_value(s.subrange(i, j)) <= decimal_value(s.subrange(i, e)),
    decreases e - j,
{
    if j < e {
        lemma_decimal_value_grows(s, i, j, e - 1);
        assert(s.subrange(i, e).drop_last() =~= s.subrange(i, e - 1));
    }
}

/// `digits()`: a non-empty run of ASCII digits read as a `u64`; a run whose
/// value does not fit is no number.
pub open spec fn spec_digits(s: Seq<char>, i: int) -> Option<(u64, int)> {
    let e = scan(s, i, CharClass::Digit);
    if e == i {
        None
    } else if decimal_value(s.subrange(i, e)) <= u64::MAX {
        Some((decimal_value(s.subrange(i, e)) as u64, e))
    } else {
        None
    }
}

pub proof fn lemma_digits(s: Seq<char>, i: int)
    requires
        0 <= i <= s.len(),
    ensures
        spec_digits(s, i) matches Some((_, j)) ==> i < j <= s.len(),
{
    lemma_scan(s, i, CharClass::Digit);
}

pub proof fn lemma_ws(s: Seq<char>, i: int)
    requires
        0 <= i <= s.len(),
    ensures
        i <= ws(s, i) <= s.len(),
{
    lemma_scan(s, i, CharClass::Whitespace);
}

pub fn digits(s: &[char], i: usize) -> (r: Option<(u64, usize)>)
    requires
        i <= s@.len(),
    ensures
        match r {
            Some((v, j)) => spec_digits(s@, i as int) == Some((v, j as int)),
            None => spec_digits(s@, i as int) is None,
        },
        r matches Some((_, j)) ==> i < j <= s.len(),
{
    let ghost e = scan(s@, i as int, CharClass::Digit);
    proof {
        lemma_scan(s@, i as int, CharClass::Digit);
    }
    let mut j = i;
    let mut v: u64 = 0;
    while j < s.len() && '0' <= s[j] && s[j] <= '9'
        invariant
            i <= j <= e,
            e == scan(s@, i as int, CharClass::Digit),
            e <= s@.len(),
            forall|k: int| i <= k < e ==> is_digit(#[trigger] s@[k]),
            e < s@.len() ==> !is_digit(s@[e]),
            v as nat == decimal_value(s@.subrange(i as int, j as int)),
        decreases s@.len() - j,
    {
        let d = (s[j] as u32 - '0' as u32) as u64;
        proof {
            assert(s@.subrange(i as int, j + 1).drop_last() =~= s@.subrange(i as int, j as int));
        }
        if v > (u64::MAX - d) / 10 {
            proof {
                assert(decimal_value(s@.subrange(i as int, j + 1)) > u64::MAX) by (nonlinear_arith)
                    requires
                        v > (u64::MAX - d) / 10,
                        decimal_value(s@.subrange(i as int, j + 1)) == v * 10 + d,
                        d <= 9;
                lemma_decimal_value_grows(s@, i as int, j + 1, e);
            }
            return None;
        }
        v = v * 10 + d;
        j += 1;
    }
    if j == i {
        None
    } else {
        Some((v, j))
    }
}

/// `String::push`.
#[verifier::external_body]
pub(crate) fn push_char(s: &mut String, c: char)
    ensures
        final(s)@ == old(s)@.push(c),
{
    s.push(c);
}

/// The characters of `s` from `from` up to `to`, as a `String`.
pub fn string_of(s: &[char], from: usize, to: usize) -> (r: String)
    requires
        from <= to <= s@.len(),
    ensures
        r@ == s@.subrange(from as int, to as int),
{
    let mut r = String::new();
    let mut k = from;
    while k < to
        invariant
            from <= k <= to <= s@.len(),
            r@ == s@.subrange(from as int, k as int),
        decreases to - k,
    {
        push_char(&mut r, s[k]);
        proof {
            assert(s@.subrange(from as int, k + 1) =~= s@.subrange(from as int, k as int).push(s@[k as int]));
        }
        k += 1;
    }
    r
}

/// The character of a decimal digit.
pub open spec fn digit_char(d: nat) -> char {
    (('0' as nat) + d) as char
}

/// The decimal representation of `n`, as `Display` for integers writes it.
pub open spec fn spec_decimal(n: nat) -> Seq<char>
    decreases n,
{
    if n < 10 {
        seq![digit_char(n)]
    } else {
        spec_decimal(n / 10).push(digit_char(n % 10))
    }
}

/// The character of the decimal digit `d`.
fn digit_of(d: u64) -> (c: char)
    requires
        d < 10,
    ensures
        c == digit_char(d as nat),
{
    if d == 0 {
        '0'
    } else if d == 1 {
        '1'
    } else if d == 2 {
        '2'
    } else if d == 3 {
        '3'
    } else if d == 4 {
        '4'
    } else if d == 5 {
        '5'
    } else if d == 6 {
        '6'
    } else if d == 7 {
        '7'
    } else if d == 8 {
        '8'
    } else {
        '9'
    }
}

/// Appends the decimal representation of `n` to `s`.
fn push_decimal(s: &mut String, n: u64)
    ensures
        final(s)@ == old(s)@ + spec_decimal(n as nat),
    decreases n,
{
    if n >= 10 {
        push_decimal(s, n / 10);
    }
    let ghost mid = s@;
    push_char(s, digit_of(n % 10));
    proof {
        if n >= 10 {
            assert(old(s)@ + spec_decimal(n as nat) =~= old(s)@ + spec_decimal((n / 10) as nat)
                + seq![digit_char((n % 10) as nat)]);
            assert(mid.push(digit_char((n % 10) as nat)) =~= mid + seq![digit_char((n % 10) as nat)]);
        } else {
            assert(old(s)@ + spec_decimal(n as nat) =~= old(s)@.push(digit_char(n as nat)));
        }
    }
}

/// `u64::to_string`: the decimal representation, no sign, no leading zeros.
pub(crate) fn u64_to_string(n: u64) -> (s: String)
    ensures
        s@ == spec_decimal(n as nat),
{
    let mut s = String::new();
    push_decimal(&mut s, n);
    proof {
        assert(Seq::<char>::empty() + spec_decimal(n as nat) =~= spec_decimal(n as nat));
    }
    s
}

/// Optional whitespace, then `lit`; the position after it.
pub open spec fn spec_ws_lit(s: Seq<char>, i: int, lit: Seq<char>) -> Option<int> {
    if lit_at(s, ws(s, i), lit) {
        Some(ws(s, i) + lit.len())
    } else {
        None
    }
}

pub fn ws_lit(s: &[char], i: usize, lit: &str) -> (r: Option<usize>)
    requires
        i <= s@.len(),
    ensures
        match r {
            Some(j) => spec_ws_lit(s@, i as int, lit@) == Some(j as int),
            None => spec_ws_lit(s@, i as int, lit@) is None,
        },
        r matches Some(j) ==> i <= j <= s.len(),
{
    match_lit(s, skip_ws(s, i), lit)
}

/// The end of the run of class `k` starting at `i`, stopping at `hi`.
pub open spec fn scan_upto(s: Seq<char>, i: int, hi: int, k: CharClass) -> int
    decreases hi - i,
{
    if 0 <= i < hi && i < s.len() && in_class(s[i], k) {
        scan_upto(s, i + 1, hi, k)
    } else {
        i
    }
}

pub proof fn lemma_scan_upto(s: Seq<char>, i: int, hi: int, k: CharClass)
    requires
        0 <= i <= hi <= s.len(),
    ensures
        i <= scan_upto(s, i, hi, k) <= hi,
        forall|j: int| i <= j < scan_upto(s, i, hi, k) ==> in_class(#[trigger] s[j], k),
        scan_upto(s, i, hi, k) < hi ==> !in_class(s[scan_upto(s, i, hi, k)], k),
    decreases hi - i,
{
    if i < hi && in_class(s[i], k) {
        lemma_scan_upto(s, i + 1, hi, k);
    }
}

pub fn scan_class_upto(s: &[char], i: usize, hi: usize, k: CharClass) -> (j: usize)
    requires
        i <= hi <= s@.len(),
    ensures
        j == scan_upto(s@, i as int, hi as int, k),
        i <= j <= hi,
{
    let mut j = i;
    while j < hi && class_has(s[j], k)
        invariant
            i <= j <= hi <= s@.len(),
            scan_upto(s@, i as int, hi as int, k) == scan_upto(s@, j as int, hi as int, k),
        decreases hi - j,
    {
        j += 1;
    }
    proof {
        lemma_scan_upto(s@, i as int, hi as int, k);
    }
    j
}

/// Walks back from `hi` over whitespace, not past `lo`.
pub open spec fn rscan_ws(s: Seq<char>, lo: int, hi: int) -> int
    decreases hi - lo,
{
    if lo < hi && 0 < hi <= s.len() && is_ws(s[hi - 1]) {
        rscan_ws(s, lo, hi - 1)
    } else {
        hi
    }
}

pub proof fn lemma_rscan_ws(s: Seq<char>, lo: int, hi: int)
    requires
        0 <= lo <= hi <= s.len(),
    ensures
        lo <= rscan_ws(s, lo, hi) <= hi,
    decreases hi - lo,
{
    if lo < hi && is_ws(s[hi - 1]) {
        lemma_rscan_ws(s, lo, hi - 1);
    }
}

pub fn rskip_ws(s: &[char], lo: usize, hi: usize) -> (j: usize)
    requires
        lo <= hi <= s@.len(),
    ensures
        j == rscan_ws(s@, lo as int, hi as int),
        lo <= j <= hi,
{
    let mut j = hi;
    while lo < j && class_has(s[j - 1], CharClass::Whitespace)
        invariant
            lo <= j <= hi <= s@.len(),
            rscan_ws(s@, lo as int, hi as int) == rscan_ws(s@, lo as int, j as int),
        decreases j - lo,
    {
        j -= 1;
    }
    j
}

/// `str::trim` of `s[lo..hi]`: the bounds of what is left.
pub open spec fn trim_bounds(s: Seq<char>, lo: int, hi: int) -> (int, int) {
    let a = scan_upto(s, lo, hi, CharClass::Whitespace);
    (a, rscan_ws(s, a, hi))
}

/// The first position `p` in `lo..hi - 1` with two spaces at `p` and `p + 1`.
pub open spec fn find_double_space(s: Seq<char>, lo: int, hi: int) -> Option<int>
    decreases hi - lo,
{
    if 0 <= lo && lo + 1 < hi && hi <= s.len() {
        if s[lo] == ' ' && s[lo + 1] == ' ' {
            Some(lo)
        } else {
            find_double_space(s, lo + 1, hi)
        }
    } else {
        None
    }
}

pub fn find_two_spaces(s: &[char], lo: usize, hi: usize) -> (r: Option<usize>)
    requires
        lo <= hi <= s@.len(),
    ensures
        match r {
            Some(p) => find_double_space(s@, lo as int, hi as int) == Some(p as int) && lo <= p
                && p + 1 < hi,
            None => find_double_space(s@, lo as int, hi as int) is None,
        },
{
    let mut p = lo;
    while hi - p > 1
        invariant
            lo <= p <= hi <= s@.len(),
            find_double_space(s@, lo as int, hi as int) == find_double_space(s@, p as int, hi as int),
        decreases hi - p,
    {
        if s[p] == ' ' && s[p + 1] == ' ' {
            return Some(p);
        }
        p += 1;
    }
    None
}

/// The first position in `lo..` where `lit` stands and ends by `hi`.
pub open spec fn find_lit(s: Seq<char>, lo: int, hi: int, lit: Seq<char>) -> Option<int>
    decreases hi + 1 - lo,
{
    if 0 <= lo && lo + lit.len() <= hi && hi <= s.len() {
        if lit_at(s, lo, lit) {
            Some(lo)
        } else {
            find_lit(s, lo + 1, hi, lit)
        }
    } else {
        None
    }
}

pub proof fn lemma_find_lit(s: Seq<char>, lo: int, hi: int, lit: Seq<char>)
    ensures
        find_lit(s, lo, hi, lit) matches Some(p) ==> lit_at(s, p, lit) && lo <= p && p
            + lit.len() <= hi,
    decreases hi + 1 - lo,
{
    if 0 <= lo && lo + lit.len() <= hi && hi <= s.len() && !lit_at(s, lo, lit) {
        lemma_find_lit(s, lo + 1, hi, lit);
    }
}

pub fn find_literal(s: &[char], lo: usize, hi: usize, lit: &str) -> (r: Option<usize>)
    requires
        lo <= hi <= s@.len(),
    ensures
        match r {
            Some(p) => find_lit(s@, lo as int, hi as int, lit@) == Some(p as int) && lo <= p
                && p + lit@.len() <= hi && lit_at(s@, p as int, lit@),
            None => find_lit(s@, lo as int, hi as int, lit@) is None,
        },
{
    proof {
        lemma_find_lit(s@, lo as int, hi as int, lit@);
    }
    let mut p = lo;
    while p <= hi
        invariant
            lo <= p <= hi + 1,
            hi <= s@.len(),
            find_lit(s@, lo as int, hi as int, lit@) == find_lit(s@, p as int, hi as int, lit@),
        decreases hi + 1 - p,
    {
        match match_lit(s, p, lit) {
            Some(j) => {
                if j <= hi {
                    return Some(p);
                } else {
                    return None;
                }
            },
            None => {},
        }
        if p == hi {
            return None;
        }
        p += 1;
    }
    None
}

/// The last position in `lo..hi` that holds whitespace.
pub open spec fn rfind_ws(s: Seq<char>, lo: int, hi: int) -> Option<int>
    decreases hi - lo,
{
    if 0 <= lo < hi && hi <= s.len() {
        if is_ws(s[hi - 1]) {
            Some(hi - 1)
        } else {
            rfind_ws(s, lo, hi - 1)
        }
    } else {
        None
    }
}

pub fn rfind_whitespace(s: &[char], lo: usize, hi: usize) -> (r: Option<usize>)
    requires
        lo <= hi <= s@.len(),
    ensures
        match r {
            Some(q) => rfind_ws(s@, lo as int, hi as int) == Some(q as int) && lo <= q < hi,
            None => rfind_ws(s@, lo as int, hi as int) is None,
        },
{
    let mut h = hi;
    while lo < h
        invariant
            lo <= h <= hi <= s@.len(),
            rfind_ws(s@, lo as int, hi as int) == rfind_ws(s@, lo as int, h as int),
        decreases h - lo,
    {
        if class_has(s[h - 1], CharClass::Whitespace) {
            return Some(h - 1);
        }
        h -= 1;
    }
    None
}

/// The first position in `lo..hi` that holds `c`.
pub open spec fn find_char(s: Seq<char>, lo: int, hi: int, c: char) -> Option<int>
    decreases hi - lo,
{
    if 0 <= lo < hi && hi <= s.len() {
        if s[lo] == c {
            Some(lo)
        } else {
            find_char(s, lo + 1, hi, c)
        }
    } else {
        None
    }
}

pub fn find_character(s: &[char], lo: usize, hi: usize, c: char) -> (r: Option<usize>)
    requires
        lo <= hi <= s@.len(),
    ensures
        match r {
            Some(p) => find_char(s@, lo as int, hi as int, c) == Some(p as int) && lo <= p < hi,
            None => find_char(s@, lo as int, hi as int, c) is None,
        },
{
    let mut p = lo;
    while p < hi
        invariant
            lo <= p <= hi <= s@.len(),
            find_char(s@, lo as int, hi as int, c) == find_char(s@, p as int, hi as int, c),
        decreases hi - p,
    {
        if s[p] == c {
            return Some(p);
        }
        p += 1;
    }
    None
}

/// `u64::from_str` of `s[lo..hi]`: an optional `+`, then one or more
/// digits and nothing else, of a value that fits.
pub open spec fn spec_parse_u64(s: Seq<char>, lo: int, hi: int) -> Option<u64> {
    let start = if lo < hi && s[lo] == '+' { lo + 1 } else { lo };
    if start < hi && scan_upto(s, start, hi, CharClass::Digit) == hi && decimal_value(
        s.subrange(start, hi),
    ) <= u64::MAX {
        Some(decimal_value(s.subrange(start, hi)) as u64)
    } else {
        None
    }
}

pub fn parse_u64(s: &[char], lo: usize, hi: usize) -> (r: Option<u64>)
    requires
        lo <= hi <= s@.len(),
    ensures
        r == spec_parse_u64(s@, lo as int, hi as int),
{
    let start = if lo < hi && s[lo] == '+' { lo + 1 } else { lo };
    if start >= hi || scan_class_upto(s, start, hi, CharClass::Digit) != hi {
        return None;
    }
    proof {
        lemma_scan_upto(s@, start as int, hi as int, CharClass::Digit);
    }
    let mut v: u64 = 0;
    let mut j = start;
    while j < hi
        invariant
            start <= j <= hi <= s@.len(),
            lo <= start < hi,
            start == (if lo < hi && s@[lo as int] == '+' { lo + 1 } else { lo as int }),
            scan_upto(s@, start as int, hi as int, CharClass::Digit) == hi,
            forall|k: int| start <= k < hi ==> is_digit(#[trigger] s@[k]),
            v as nat == decimal_value(s@.subrange(start as int, j as int)),
        decreases hi - j,
    {
        let d = (s[j] as u32 - '0' as u32) as u64;
        proof {
            assert(s@.subrange(start as int, j + 1).drop_last() =~= s@.subrange(start as int, j as int));
        }
        if v > (u64::MAX - d) / 10 {
            proof {
                assert(decimal_value(s@.subrange(start as int, j + 1)) > u64::MAX) by (nonlinear_arith)
                    requires
                        v > (u64::MAX - d) / 10,
                        decimal_value(s@.subrange(start as int, j + 1)) == v * 10 + d,
                        d <= 9;
                lemma_decimal_value_grows(s@, start as int, j + 1, hi as int);
            }
            return None;
        }
        v = v * 10 + d;
        j += 1;
    }
    Some(v)
}

/// `str::split_whitespace` of `s[lo..hi]`, each word read as a `u64`;
/// `None` when a word is no number.
pub open spec fn spec_numbers(s: Seq<char>, lo: int, hi: int) -> Option<Seq<u64>>
    decreases hi - lo,
{
    let a = scan_upto(s, lo, hi, CharClass::Whitespace);
    if !(0 <= lo <= hi <= s.len()) || a >= hi {
        Some(Seq::empty())
    } else {
        let b = scan_upto(s, a, hi, CharClass::NotWhitespace);
        proof {
            lemma_scan_upto(s, lo, hi, CharClass::Whitespace);
            lemma_scan_upto(s, a, hi, CharClass::NotWhitespace);
        }
        match spec_parse_u64(s, a, b) {
            Some(v) => match spec_numbers(s, b, hi) {
                Some(rest) => Some(seq![v] + rest),
                None => None,
            },
            None => None,
        }
    }
}

pub fn numbers(s: &[char], lo: usize, hi: usize) -> (r: Option<Vec<u64>>)
    requires
        lo <= hi <= s@.len(),
    ensures
        match r {
            Some(v) => spec_numbers(s@, lo as int, hi as int) == Some(v@),
            None => spec_numbers(s@, lo as int, hi as int) is None,
        },
{
    let mut xs: Vec<u64> = Vec::new();
    let mut j = lo;
    loop
        invariant
            lo <= j <= hi <= s@.len(),
            spec_numbers(s@, lo as int, hi as int) == match spec_numbers(s@, j as int, hi as int) {
                Some(rest) => Some(xs@ + rest),
                None => None::<Seq<u64>>,
            },
        decreases hi - j,
    {
        let a = scan_class_upto(s, j, hi, CharClass::Whitespace);
        if a >= hi {
            proof {
                assert(xs@ + Seq::<u64>::empty() =~= xs@);
            }
            return Some(xs);
        }
        let b = scan_class_upto(s, a, hi, CharClass::NotWhitespace);
        proof {
            lemma_scan_upto(s@, a as int, hi as int, CharClass::NotWhitespace);
        }
        match parse_u64(s, a, b) {
            Some(v) => {
                proof {
                    assert(b > a);
                    if let Some(rest) = spec_numbers(s@, b as int, hi as int) {
                        assert(xs@ + (seq![v] + rest) =~= xs@.push(v) + rest);
                    }
                }
                xs.push(v);
                j = b;
            },
            None => return None,
        }
    }
}

/// `<name>=`: the parameter a block is for; the position after the `=`.
pub open spec fn spec_param(s: Seq<char>, i: int, name: Seq<char>) -> Option<int> {
    if lit_at(s, i, name) && char_at(s, i + name.len(), '=') {
        Some(i + name.len() + 1)
    } else {
        None
    }
}

pub fn param(s: &[char], i: usize, name: &str) -> (r: Option<usize>)
    requires
        i <= s@.len(),
    ensures
        match r {
            Some(j) => spec_param(s@, i as int, name@) == Some(j as int),
            None => spec_param(s@, i as int, name@) is None,
        },
        r matches Some(j) ==> i < j <= s.len(),
{
    match match_lit(s, i, name) {
        Some(a) if is_char_at(s, a, '=') => Some(a + 1),
        _ => None,
    }
}

/// `<kind>.<name>.`: the device a parameter belongs to, its name free of
/// `.`; the name and the position after the second `.`.
pub open spec fn spec_device(s: Seq<char>, i: int, kind: Seq<char>) -> Option<(Seq<char>, int)> {
    if !lit_at(s, i, kind) || !char_at(s, i + kind.len(), '.') {
        None
    } else {
        let a = i + kind.len() + 1;
        let b = scan(s, a, CharClass::NotPeriod);
        if b > a && char_at(s, b, '.') {
            Some((s.subrange(a, b), b + 1))
        } else {
            None
        }
    }
}

pub fn device(s: &[char], i: usize, kind: &str) -> (r: Option<(String, usize)>)
    requires
        i <= s@.len(),
    ensures
        match r {
            Some((x, j)) => spec_device(s@, i as int, kind@) == Some((x@, j as int)),
            None => spec_device(s@, i as int, kind@) is None,
        },
        r matches Some((_, j)) ==> i < j <= s.len(),
{
    let a = match match_lit(s, i, kind) {
        Some(a) if is_char_at(s, a, '.') => a + 1,
        _ => return None,
    };
    let b = scan_class(s, a, CharClass::NotPeriod);
    if b > a && is_char_at(s, b, '.') {
        Some((string_of(s, a, b), b + 1))
    } else {
        None
    }
}

} // verus!
