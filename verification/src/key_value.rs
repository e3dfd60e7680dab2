//! `name: value` blocks (`statahead_stats`, `unstable_stats`, `stats_compr`).
//! The key set varies by release and build, so callers pick the names they know.

use crate::text::{
    CharClass, char_at, digits, is_char_at, lemma_digits, lemma_scan, lemma_ws, scan, scan_class, skip_ws, spec_digits,
    string_of, ws,
};
use crate::rows::{is_number, lemma_digits_at, lemma_ws_at};
use crate::text::{decimal_value, in_class, is_ws};
use crate::types::{KeyValue, KeyValueView};
use vstd::prelude::*;

verus! {

/// `<name>:<whitespace><digits>\n`, the name free of `:`, `=` and newlines.
pub open spec fn spec_key_value(s: Seq<char>, i: int) -> Option<(KeyValueView, int)> {
    let a = scan(s, i, CharClass::KeyName);
    if a == i || !char_at(s, a, ':') {
        None
    } else {
        match spec_digits(s, ws(s, a + 1)) {
            Some((value, b)) if char_at(s, b, '\n') => Some(
                (KeyValueView { name: s.subrange(i, a), value }, b + 1),
            ),
            _ => None,
        }
    }
}

pub proof fn lemma_key_value_advances(s: Seq<char>, i: int)
    requires
        0 <= i <= s.len(),
    ensures
        spec_key_value(s, i) matches Some((_, j)) ==> i < j <= s.len(),
{
    lemma_scan(s, i, CharClass::KeyName);
    let a = scan(s, i, CharClass::KeyName);
    if a != i && char_at(s, a, ':') {
        lemma_ws(s, a + 1);
        lemma_digits(s, ws(s, a + 1));
    }
}

/// A `name: value` line reads as that name and the value of its digits:
/// for a name free of `:`, `=` and newlines, whitespace, a number and a
/// newline, the pair is the name and the number, and the reading goes on
/// after the newline.
pub proof fn key_value_lines_read_name_then_value(
    name: Seq<char>,
    gap: Seq<char>,
    digits_text: Seq<char>,
    rest: Seq<char>,
)
    requires
        name.len() > 0,
        forall|k: int| 0 <= k < name.len() ==> in_class(#[trigger] name[k], CharClass::KeyName),
        forall|k: int| 0 <= k < gap.len() ==> is_ws(#[trigger] gap[k]),
        is_number(digits_text),
    ensures
        ({
            let line = name + ":"@ + gap + digits_text + "\n"@ + rest;
            spec_key_value(line, 0) == Some(
                (
                    KeyValueView { name, value: decimal_value(digits_text) as u64 },
                    (name.len() + 1 + gap.len() + digits_text.len() + 1) as int,
                ),
            )
        }),
{
    reveal_strlit(":");
    reveal_strlit("\n");
    let line = name + ":"@ + gap + digits_text + "\n"@ + rest;
    let a = name.len() as int;
    let g = a + 1 + gap.len();
    let d = g + digits_text.len();
    assert forall|k: int| 0 <= k < a implies in_class(#[trigger] line[k], CharClass::KeyName) by {
        assert(line[k] == name[k]);
    }
    assert(line[a] == ':');
    lemma_scan(line, 0, CharClass::KeyName);
    let f = scan(line, 0, CharClass::KeyName);
    if f < a {
        assert(in_class(line[f], CharClass::KeyName));
    }
    if f > a {
        assert(in_class(line[a], CharClass::KeyName));
    }
    assert forall|k: int| a + 1 <= k < g implies is_ws(#[trigger] line[k]) by {
        assert(line[k] == gap[k - a - 1]);
    }
    assert(line[g] == digits_text[0]);
    lemma_ws_at(line, a + 1, g);
    assert(line.subrange(g, d) =~= digits_text);
    assert(line[d] == '\n');
    lemma_digits_at(line, g, digits_text);
    assert(line.subrange(0, a) =~= name);
}

pub fn key_value(s: &[char], i: usize) -> (r: Option<(KeyValue, usize)>)
    requires
        i <= s@.len(),
    ensures
        match r {
            Some((kv, j)) => spec_key_value(s@, i as int) == Some((kv.deep_view(), j as int)),
            None => spec_key_value(s@, i as int) is None,
        },
        r matches Some((_, j)) ==> i < j <= s.len(),
{
    proof {
        lemma_key_value_advances(s@, i as int);
    }
    let a = scan_class(s, i, CharClass::KeyName);
    if a == i || !is_char_at(s, a, ':') {
        return None;
    }
    let c = skip_ws(s, a + 1);
    match digits(s, c) {
        Some((value, b)) if is_char_at(s, b, '\n') => {
            Some((KeyValue { name: string_of(s, i, a), value }, b + 1))
        },
        _ => None,
    }
}

/// As many `name: value` lines as stand at `i`, and where they end.
pub open spec fn spec_key_value_list(s: Seq<char>, i: int) -> (Seq<KeyValueView>, int)
    decreases s.len() - i,
{
    if 0 <= i <= s.len() {
        match spec_key_value(s, i) {
            Some((kv, j)) => {
                proof {
                    lemma_key_value_advances(s, i);
                }
                let (rest, k) = spec_key_value_list(s, j);
                (seq![kv] + rest, k)
            },
            None => (Seq::empty(), i),
        }
    } else {
        (Seq::empty(), i)
    }
}

/// `\n`, then one or more `name: value` lines.
pub open spec fn spec_key_values(s: Seq<char>, i: int) -> Option<(Seq<KeyValueView>, int)> {
    if !char_at(s, i, '\n') {
        None
    } else {
        let (xs, j) = spec_key_value_list(s, i + 1);
        if xs.len() == 0 {
            None
        } else {
            Some((xs, j))
        }
    }
}

pub fn key_value_list(s: &[char], i: usize) -> (r: (Vec<KeyValue>, usize))
    requires
        i <= s@.len(),
    ensures
        spec_key_value_list(s@, i as int) == (r.0.deep_view(), r.1 as int),
        i <= r.1 <= s.len(),
{
    let mut xs: Vec<KeyValue> = Vec::new();
    let mut j = i;
    loop
        invariant
            i <= j <= s.len(),
            spec_key_value_list(s@, i as int) == (
                xs.deep_view() + spec_key_value_list(s@, j as int).0,
                spec_key_value_list(s@, j as int).1,
            ),
        decreases s@.len() - j,
    {
        match key_value(s, j) {
            Some((kv, k)) => {
                proof {
                    let ghost old_xs = xs.deep_view();
                    assert(spec_key_value_list(s@, j as int).0 =~= seq![kv.deep_view()]
                        + spec_key_value_list(s@, k as int).0);
                }
                let ghost before = xs.deep_view();
                xs.push(kv);
                proof {
                    assert(xs.deep_view() =~= before.push(kv.deep_view()));
                    assert(before + spec_key_value_list(s@, j as int).0 =~= xs.deep_view()
                        + spec_key_value_list(s@, k as int).0);
                }
                j = k;
            },
            None => {
                proof {
                    assert(xs.deep_view() + spec_key_value_list(s@, j as int).0 =~= xs.deep_view());
                }
                return (xs, j);
            },
        }
    }
}

pub fn key_values(s: &[char], i: usize) -> (r: Option<(Vec<KeyValue>, usize)>)
    requires
        i <= s@.len(),
    ensures
        match r {
            Some((xs, j)) => spec_key_values(s@, i as int) == Some((xs.deep_view(), j as int)),
            None => spec_key_values(s@, i as int) is None,
        },
        r matches Some((_, j)) ==> i < j <= s.len(),
{
    if !is_char_at(s, i, '\n') {
        return None;
    }
    let (xs, j) = key_value_list(s, i + 1);
    if xs.len() == 0 {
        None
    } else {
        Some((xs, j))
    }
}

} // verus!
