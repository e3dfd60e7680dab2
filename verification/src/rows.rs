//! Rows of the kernel's histogram tables: `<count> <pct> <cum>` triples,
//! read/write rows and `extents_stats` size ranges.

use crate::text::{
    CharClass, char_at, decimal_value, digits, is_char_at, is_digit, is_ws, lemma_digits,
    lemma_scan, lemma_ws, scan, skip_ws, spec_digits, ws,
};
use crate::types::{BrwStatsBucket, ExtentsBucket};
use vstd::prelude::*;

verus! {

/// `<count> <pct> <cum>`, each after optional whitespace; the count.
pub open spec fn spec_count_pct_cum(s: Seq<char>, i: int) -> Option<(u64, int)> {
    match spec_digits(s, ws(s, i)) {
        Some((count, a)) => match spec_digits(s, ws(s, a)) {
            Some((_, b)) => match spec_digits(s, ws(s, b)) {
                Some((_, c)) => Some((count, c)),
                None => None,
            },
            None => None,
        },
        None => None,
    }
}

pub proof fn lemma_count_pct_cum(s: Seq<char>, i: int)
    requires
        0 <= i <= s.len(),
    ensures
        spec_count_pct_cum(s, i) matches Some((_, j)) ==> i < j <= s.len(),
{
    lemma_ws(s, i);
    lemma_digits(s, ws(s, i));
    if let Some((_, a)) = spec_digits(s, ws(s, i)) {
        lemma_ws(s, a);
        lemma_digits(s, ws(s, a));
        if let Some((_, b)) = spec_digits(s, ws(s, a)) {
            lemma_ws(s, b);
            lemma_digits(s, ws(s, b));
        }
    }
}

pub fn count_pct_cum(s: &[char], i: usize) -> (r: Option<(u64, usize)>)
    requires
        i <= s@.len(),
    ensures
        match r {
            Some((v, j)) => spec_count_pct_cum(s@, i as int) == Some((v, j as int)),
            None => spec_count_pct_cum(s@, i as int) is None,
        },
        r matches Some((_, j)) ==> i < j <= s.len(),
{
    let (count, a) = match digits(s, skip_ws(s, i)) {
        Some(x) => x,
        None => return None,
    };
    let (_, b) = match digits(s, skip_ws(s, a)) {
        Some(x) => x,
        None => return None,
    };
    match digits(s, skip_ws(s, b)) {
        Some((_, c)) => Some((count, c)),
        None => None,
    }
}

/// `<key>: <count> <pct> <cum> | <count> <pct> <cum>`: a row of a read/write
/// table, without its newline.
pub open spec fn spec_bucket(s: Seq<char>, i: int) -> Option<(BrwStatsBucket, int)> {
    match spec_digits(s, ws(s, i)) {
        Some((name, a)) if char_at(s, a, ':') => match spec_count_pct_cum(s, a + 1) {
            Some((read, b)) if char_at(s, ws(s, b), '|') => match spec_count_pct_cum(
                s,
                ws(s, b) + 1,
            ) {
                Some((write, c)) => Some((BrwStatsBucket { name, read, write }, c)),
                None => None,
            },
            _ => None,
        },
        _ => None,
    }
}

pub proof fn lemma_bucket(s: Seq<char>, i: int)
    requires
        0 <= i <= s.len(),
    ensures
        spec_bucket(s, i) matches Some((_, j)) ==> i < j <= s.len(),
{
    lemma_ws(s, i);
    lemma_digits(s, ws(s, i));
    if let Some((_, a)) = spec_digits(s, ws(s, i)) {
        if char_at(s, a, ':') {
            lemma_count_pct_cum(s, a + 1);
            if let Some((_, b)) = spec_count_pct_cum(s, a + 1) {
                lemma_ws(s, b);
                if char_at(s, ws(s, b), '|') {
                    lemma_count_pct_cum(s, ws(s, b) + 1);
                }
            }
        }
    }
}

/// A run of ASCII digits whose value fits a `u64`.
pub open spec fn is_number(d: Seq<char>) -> bool {
    &&& d.len() > 0
    &&& forall|k: int| 0 <= k < d.len() ==> is_digit(#[trigger] d[k])
    &&& decimal_value(d) <= u64::MAX
}

pub proof fn lemma_digits_at(s: Seq<char>, i: int, d: Seq<char>)
    requires
        0 <= i,
        i + d.len() <= s.len(),
        s.subrange(i, i + d.len()) == d,
        is_number(d),
        i + d.len() == s.len() || !is_digit(s[i + d.len()]),
    ensures
        spec_digits(s, i) == Some((decimal_value(d) as u64, i + d.len())),
{
    let e = i + d.len();
    assert forall|k: int| i <= k < e implies is_digit(#[trigger] s[k]) by {
        assert(s[k] == s.subrange(i, e)[k - i]);
    }
    lemma_scan(s, i, CharClass::Digit);
    let f = scan(s, i, CharClass::Digit);
    if f < e {
        assert(is_digit(s[f]));
    }
    if f > e {
        assert(is_digit(s[e]));
    }
}

pub proof fn lemma_ws_at(s: Seq<char>, i: int, n: int)
    requires
        0 <= i <= n <= s.len(),
        forall|k: int| i <= k < n ==> is_ws(#[trigger] s[k]),
        n == s.len() || !is_ws(s[n]),
    ensures
        ws(s, i) == n,
{
    lemma_scan(s, i, CharClass::Whitespace);
    let f = scan(s, i, CharClass::Whitespace);
    if f < n {
        assert(is_ws(s[f]));
    }
    if f > n {
        assert(is_ws(s[n]));
    }
}

/// `<count> <pct> <cum>` with single spaces.
pub open spec fn count_triple(t: (Seq<char>, Seq<char>, Seq<char>)) -> Seq<char> {
    t.0 + " "@ + t.1 + " "@ + t.2
}

proof fn lemma_count_triple_at(s: Seq<char>, st: int, i: int, t: (Seq<char>, Seq<char>, Seq<char>))
    requires
        0 <= st <= i,
        ws(s, st) == i,
        i + count_triple(t).len() <= s.len(),
        s.subrange(i, i + count_triple(t).len()) == count_triple(t),
        is_number(t.0),
        is_number(t.1),
        is_number(t.2),
        i + count_triple(t).len() == s.len() || !is_digit(s[i + count_triple(t).len()]),
    ensures
        spec_count_pct_cum(s, st) == Some((decimal_value(t.0) as u64, i + count_triple(t).len())),
{
    reveal_strlit(" ");
    let c = count_triple(t);
    let a2 = i + t.0.len();
    let a3 = a2 + 1;
    let a4 = a3 + t.1.len();
    let a5 = a4 + 1;
    let a6 = a5 + t.2.len();
    assert(a6 == i + c.len());
    assert forall|k: int| 0 <= k < c.len() implies #[trigger] s[i + k] == c[k] by {
        assert(s.subrange(i, i + c.len())[k] == s[i + k]);
    }
    assert(s.subrange(i, a2) =~= t.0) by {
        assert forall|k: int| 0 <= k < t.0.len() implies s.subrange(i, a2)[k] == t.0[k] by {
            assert(s[i + k] == c[k]);
        }
    }
    assert(s[a2] == c[t.0.len() as int]);
    assert(s[a2] == ' ');
    assert(s.subrange(a3, a4) =~= t.1) by {
        assert forall|k: int| 0 <= k < t.1.len() implies s.subrange(a3, a4)[k] == t.1[k] by {
            assert(s[a3 + k] == c[t.0.len() as int + 1 + k]);
        }
    }
    assert(s[a4] == c[(t.0.len() + 1 + t.1.len()) as int]);
    assert(s[a4] == ' ');
    assert(s.subrange(a5, a6) =~= t.2) by {
        assert forall|k: int| 0 <= k < t.2.len() implies s.subrange(a5, a6)[k] == t.2[k] by {
            assert(s[a5 + k] == c[t.0.len() as int + 1 + t.1.len() + 1 + k]);
        }
    }
    assert(is_digit(t.0[t.0.len() - 1]));
    assert(s[a2 - 1] == t.0[t.0.len() - 1]);
    lemma_digits_at(s, i, t.0);
    assert(is_digit(t.1[0]));
    assert(s[a3] == t.1[0]);
    lemma_ws_at(s, a2, a3);
    lemma_digits_at(s, a3, t.1);
    assert(is_digit(t.2[0]));
    assert(s[a5] == t.2[0]);
    lemma_ws_at(s, a4, a5);
    lemma_digits_at(s, a5, t.2);
}

/// A row of a read/write table as the kernel prints it, with single spaces:
/// `<key>: <count> <pct> <cum> | <count> <pct> <cum>`.
pub open spec fn rw_row(
    key: Seq<char>,
    read: (Seq<char>, Seq<char>, Seq<char>),
    write: (Seq<char>, Seq<char>, Seq<char>),
) -> Seq<char> {
    key + ": "@ + count_triple(read) + " | "@ + count_triple(write)
}

/// A read/write row reads its sides in order: the key is the number before
/// `:`, the read count the first number after it, and the write count the
/// first number after the `|`.
#[verifier::rlimit(50)]
pub proof fn rw_rows_read_left_then_right(
    key: Seq<char>,
    read: (Seq<char>, Seq<char>, Seq<char>),
    write: (Seq<char>, Seq<char>, Seq<char>),
)
    requires
        is_number(key),
        is_number(read.0),
        is_number(read.1),
        is_number(read.2),
        is_number(write.0),
        is_number(write.1),
        is_number(write.2),
    ensures
        spec_bucket(rw_row(key, read, write), 0) == Some(
            (
                BrwStatsBucket {
                    name: decimal_value(key) as u64,
                    read: decimal_value(read.0) as u64,
                    write: decimal_value(write.0) as u64,
                },
                rw_row(key, read, write).len() as int,
            ),
        ),
{
    reveal_strlit(": ");
    reveal_strlit(" | ");
    let r = rw_row(key, read, write);
    let cr = count_triple(read);
    let cw = count_triple(write);
    let a0 = key.len() as int;
    let a1 = a0 + 2;
    let a6 = a1 + cr.len();
    let b1 = a6 + 3;
    let b6 = b1 + cw.len();
    assert(r.len() == b6);
    assert(r.subrange(0, a0) =~= key);
    assert(r[a0] == ':');
    assert(r[a0 + 1] == ' ');
    assert(r.subrange(a1, a6) =~= cr);
    assert(r[a6] == ' ');
    assert(r[a6 + 1] == '|');
    assert(r[a6 + 2] == ' ');
    assert(r.subrange(b1, b6) =~= cw);
    assert(r[0] == key[0]);
    assert(is_digit(key[0]));
    lemma_ws_at(r, 0, 0);
    lemma_digits_at(r, 0, key);
    assert(r[a1] == read.0[0] && is_digit(read.0[0]));
    lemma_ws_at(r, a0 + 1, a1);
    lemma_count_triple_at(r, a0 + 1, a1, read);
    lemma_ws_at(r, a6, a6 + 1);
    assert(r[b1] == write.0[0] && is_digit(write.0[0]));
    lemma_ws_at(r, a6 + 2, b1);
    lemma_count_triple_at(r, a6 + 2, b1, write);
}

pub fn bucket(s: &[char], i: usize) -> (r: Option<(BrwStatsBucket, usize)>)
    requires
        i <= s@.len(),
    ensures
        match r {
            Some((v, j)) => spec_bucket(s@, i as int) == Some((v, j as int)),
            None => spec_bucket(s@, i as int) is None,
        },
        r matches Some((_, j)) ==> i < j <= s.len(),
{
    proof {
        lemma_bucket(s@, i as int);
    }
    let (name, a) = match digits(s, skip_ws(s, i)) {
        Some(x) => x,
        None => return None,
    };
    if !is_char_at(s, a, ':') {
        return None;
    }
    let (read, b) = match count_pct_cum(s, a + 1) {
        Some(x) => x,
        None => return None,
    };
    let c = skip_ws(s, b);
    if !is_char_at(s, c, '|') {
        return None;
    }
    match count_pct_cum(s, c + 1) {
        Some((write, d)) => Some((BrwStatsBucket { name, read, write }, d)),
        None => None,
    }
}

/// The factor of a size suffix: `K`, `M` or `G` (either case); 1 for none.
pub open spec fn suffix_factor(c: char) -> nat {
    if c == 'K' || c == 'k' {
        1024
    } else if c == 'M' || c == 'm' {
        1024 * 1024
    } else if c == 'G' || c == 'g' {
        1024 * 1024 * 1024
    } else {
        1
    }
}

pub open spec fn is_size_suffix(c: char) -> bool {
    suffix_factor(c) != 1
}

/// `<digits>[KkMmGg]` in bytes; a size that does not fit is no size.
pub open spec fn spec_size(s: Seq<char>, i: int) -> Option<(u64, int)> {
    match spec_digits(s, i) {
        Some((n, a)) => {
            let (f, b) = if 0 <= a < s.len() && is_size_suffix(s[a]) {
                (suffix_factor(s[a]), a + 1)
            } else {
                (1nat, a)
            };
            if n * f <= u64::MAX {
                Some(((n * f) as u64, b))
            } else {
                None
            }
        },
        None => None,
    }
}

pub fn size(s: &[char], i: usize) -> (r: Option<(u64, usize)>)
    requires
        i <= s@.len(),
    ensures
        match r {
            Some((v, j)) => spec_size(s@, i as int) == Some((v, j as int)),
            None => spec_size(s@, i as int) is None,
        },
        r matches Some((_, j)) ==> i < j <= s.len(),
{
    let (n, a) = match digits(s, i) {
        Some(x) => x,
        None => return None,
    };
    let (shift, b): (u64, usize) = if a < s.len() && (s[a] == 'K' || s[a] == 'k') {
        (10, a + 1)
    } else if a < s.len() && (s[a] == 'M' || s[a] == 'm') {
        (20, a + 1)
    } else if a < s.len() && (s[a] == 'G' || s[a] == 'g') {
        (30, a + 1)
    } else {
        (0, a)
    };
    let f: u64 = if shift == 10 {
        1024
    } else if shift == 20 {
        1024 * 1024
    } else if shift == 30 {
        1024 * 1024 * 1024
    } else {
        1
    };
    proof {
        assert(f as nat == if a < s@.len() && is_size_suffix(s@[a as int]) { suffix_factor(s@[a as int]) } else { 1nat });
    }
    match n.checked_mul(f) {
        Some(v) => Some((v, b)),
        None => None,
    }
}

pub proof fn lemma_size(s: Seq<char>, i: int)
    requires
        0 <= i <= s.len(),
    ensures
        spec_size(s, i) matches Some((_, j)) ==> i < j <= s.len(),
{
    lemma_digits(s, i);
}

/// `<lower> - <upper><+ or space>: <read> | <write>\n`: a row of
/// `extents_stats`; `+` marks the overflow bucket.
pub open spec fn spec_extents_row(s: Seq<char>, i: int) -> Option<(ExtentsBucket, int)> {
    match spec_size(s, ws(s, i)) {
        Some((lower_bytes, a)) if char_at(s, ws(s, a), '-') => match spec_size(
            s,
            ws(s, ws(s, a) + 1),
        ) {
            Some((upper_bytes, b)) if (char_at(s, b, '+') || char_at(s, b, ' ')) && char_at(
                s,
                b + 1,
                ':',
            ) => match spec_count_pct_cum(s, b + 2) {
                Some((read_calls, c)) if char_at(s, ws(s, c), '|') => match spec_count_pct_cum(
                    s,
                    ws(s, c) + 1,
                ) {
                    Some((write_calls, d)) if char_at(s, d, '\n') => Some(
                        (
                            ExtentsBucket {
                                lower_bytes,
                                upper_bytes,
                                overflow: char_at(s, b, '+'),
                                read_calls,
                                write_calls,
                            },
                            d + 1,
                        ),
                    ),
                    _ => None,
                },
                _ => None,
            },
            _ => None,
        },
        _ => None,
    }
}

pub proof fn lemma_extents_row(s: Seq<char>, i: int)
    requires
        0 <= i <= s.len(),
    ensures
        spec_extents_row(s, i) matches Some((_, j)) ==> i < j <= s.len(),
{
    lemma_ws(s, i);
    lemma_size(s, ws(s, i));
    if let Some((_, a)) = spec_size(s, ws(s, i)) {
        lemma_ws(s, a);
        if char_at(s, ws(s, a), '-') {
            lemma_ws(s, ws(s, a) + 1);
            lemma_size(s, ws(s, ws(s, a) + 1));
            if let Some((_, b)) = spec_size(s, ws(s, ws(s, a) + 1)) {
                if (char_at(s, b, '+') || char_at(s, b, ' ')) && char_at(s, b + 1, ':') {
                    lemma_count_pct_cum(s, b + 2);
                    if let Some((_, c)) = spec_count_pct_cum(s, b + 2) {
                        lemma_ws(s, c);
                        if char_at(s, ws(s, c), '|') {
                            lemma_count_pct_cum(s, ws(s, c) + 1);
                        }
                    }
                }
            }
        }
    }
}

pub fn extents_row(s: &[char], i: usize) -> (r: Option<(ExtentsBucket, usize)>)
    requires
        i <= s@.len(),
    ensures
        match r {
            Some((v, j)) => spec_extents_row(s@, i as int) == Some((v, j as int)),
            None => spec_extents_row(s@, i as int) is None,
        },
        r matches Some((_, j)) ==> i < j <= s.len(),
{
    let (lower_bytes, a) = match size(s, skip_ws(s, i)) {
        Some(x) => x,
        None => return None,
    };
    let a2 = skip_ws(s, a);
    if !is_char_at(s, a2, '-') {
        return None;
    }
    let (upper_bytes, b) = match size(s, skip_ws(s, a2 + 1)) {
        Some(x) => x,
        None => return None,
    };
    let overflow = is_char_at(s, b, '+');
    if !(overflow || is_char_at(s, b, ' ')) || !is_char_at(s, b + 1, ':') {
        return None;
    }
    let (read_calls, c) = match count_pct_cum(s, b + 2) {
        Some(x) => x,
        None => return None,
    };
    let c2 = skip_ws(s, c);
    if !is_char_at(s, c2, '|') {
        return None;
    }
    match count_pct_cum(s, c2 + 1) {
        Some((write_calls, d)) if is_char_at(s, d, '\n') => Some(
            (ExtentsBucket { lower_bytes, upper_bytes, overflow, read_calls, write_calls }, d + 1),
        ),
        _ => None,
    }
}

} // verus!
