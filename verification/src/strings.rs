//! `str` operations the metric builders use, over characters.

use crate::text::{chars_of, find_lit, find_literal, lit_at, match_lit, push_char, string_of};
use vstd::prelude::*;

verus! {

/// Whether two strings are equal.
pub fn str_eq(a: &str, b: &str) -> (r: bool)
    ensures
        r == (a@ == b@),
{
    a.to_owned() == b.to_owned()
}

/// Whether `lit` occurs in `s`.
pub open spec fn has_substring(s: Seq<char>, lit: Seq<char>) -> bool {
    exists|p: int| 0 <= p && p + lit.len() <= s.len() && #[trigger] lit_at(s, p, lit)
}

proof fn lemma_find_lit_none(s: Seq<char>, lo: int, hi: int, lit: Seq<char>)
    requires
        0 <= lo,
        hi <= s.len(),
        find_lit(s, lo, hi, lit) is None,
    ensures
        forall|p: int| lo <= p && p + lit.len() <= hi ==> !#[trigger] lit_at(s, p, lit),
    decreases hi + 1 - lo,
{
    if lo + lit.len() <= hi {
        lemma_find_lit_none(s, lo + 1, hi, lit);
    }
}

/// Whether `lit` occurs in the characters `s`.
fn occurs(s: &[char], lit: &str) -> (r: bool)
    ensures
        r == has_substring(s@, lit@),
{
    match find_literal(s, 0, s.len(), lit) {
        Some(_) => true,
        None => {
            proof {
                lemma_find_lit_none(s@, 0, s@.len() as int, lit@);
            }
            false
        },
    }
}

/// `str::contains`: whether `lit` occurs in `s`.
pub fn contains_str(s: &str, lit: &str) -> (r: bool)
    ensures
        r == has_substring(s@, lit@),
{
    let cs = chars_of(s);
    occurs(cs.as_slice(), lit)
}

/// Whether `s` begins with `prefix`.
pub open spec fn spec_starts_with(s: Seq<char>, prefix: Seq<char>) -> bool {
    lit_at(s, 0, prefix)
}

/// `str::starts_with`.
pub fn starts_with(s: &str, prefix: &str) -> (r: bool)
    ensures
        r == spec_starts_with(s@, prefix@),
{
    let cs = chars_of(s);
    match match_lit(cs.as_slice(), 0, prefix) {
        Some(_) => true,
        None => false,
    }
}

/// `str::strip_prefix`: what follows `prefix`, when `s` begins with it.
pub open spec fn spec_strip_prefix(s: Seq<char>, prefix: Seq<char>) -> Option<Seq<char>> {
    if spec_starts_with(s, prefix) {
        Some(s.skip(prefix.len() as int))
    } else {
        None
    }
}

pub fn strip_prefix(s: &str, prefix: &str) -> (r: Option<String>)
    ensures
        match r {
            Some(rest) => spec_strip_prefix(s@, prefix@) == Some(rest@),
            None => spec_strip_prefix(s@, prefix@) is None,
        },
{
    let cs = chars_of(s);
    match match_lit(cs.as_slice(), 0, prefix) {
        Some(j) => {
            let rest = string_of(cs.as_slice(), j, cs.len());
            proof {
                assert(cs@.subrange(j as int, cs@.len() as int) =~= s@.skip(prefix@.len() as int));
            }
            Some(rest)
        },
        None => None,
    }
}

/// `str::split` on a character: the pieces between occurrences of `c`,
/// one more than there are occurrences.
pub open spec fn spec_split(s: Seq<char>, c: char) -> Seq<Seq<char>>
    decreases s.len(),
{
    if s.len() == 0 {
        seq![Seq::empty()]
    } else {
        let rest = spec_split(s.drop_last(), c);
        if s.last() == c {
            rest.push(Seq::empty())
        } else {
            rest.update(rest.len() - 1, rest.last().push(s.last()))
        }
    }
}

proof fn lemma_split_nonempty(s: Seq<char>, c: char)
    ensures
        spec_split(s, c).len() >= 1,
    decreases s.len(),
{
    if s.len() > 0 {
        lemma_split_nonempty(s.drop_last(), c);
    }
}

/// The pieces of `s` between occurrences of `c`.
pub fn split_char(s: &str, c: char) -> (r: Vec<String>)
    ensures
        r.deep_view() == spec_split(s@, c),
{
    let cs = chars_of(s);
    let mut done: Vec<String> = Vec::new();
    let mut cur = String::new();
    let mut i: usize = 0;
    while i < cs.len()
        invariant
            i <= cs@.len(),
            cs@ == s@,
            done.deep_view().push(cur@) == spec_split(cs@.take(i as int), c),
        decreases cs.len() - i,
    {
        let ghost before = done.deep_view().push(cur@);
        proof {
            assert(cs@.take(i + 1).drop_last() =~= cs@.take(i as int));
            lemma_split_nonempty(cs@.take(i as int), c);
        }
        if cs[i] == c {
            let piece = cur;
            done.push(piece);
            cur = String::new();
            proof {
                assert(done.deep_view().push(cur@) =~= before.push(Seq::empty()));
            }
        } else {
            push_char(&mut cur, cs[i]);
            proof {
                assert(done.deep_view().push(cur@) =~= before.update(
                    before.len() - 1,
                    before.last().push(cs@[i as int]),
                ));
            }
        }
        i += 1;
    }
    proof {
        assert(cs@.take(cs@.len() as int) =~= cs@);
    }
    done.push(cur);
    done
}

/// `s` with every `from` replaced by `to`.
pub open spec fn spec_replace_char(s: Seq<char>, from: char, to: char) -> Seq<char> {
    s.map_values(|x: char| if x == from { to } else { x })
}

/// `str::replace` of one character by another.
pub fn replace_char(s: &str, from: char, to: char) -> (r: String)
    ensures
        r@ == spec_replace_char(s@, from, to),
{
    let cs = chars_of(s);
    let mut r = String::new();
    let mut i: usize = 0;
    while i < cs.len()
        invariant
            i <= cs@.len(),
            cs@ == s@,
            r@ == spec_replace_char(cs@.take(i as int), from, to),
        decreases cs.len() - i,
    {
        let x = if cs[i] == from { to } else { cs[i] };
        push_char(&mut r, x);
        proof {
            assert(spec_replace_char(cs@.take(i + 1), from, to) =~= spec_replace_char(
                cs@.take(i as int),
                from,
                to,
            ).push(x));
        }
        i += 1;
    }
    proof {
        assert(cs@.take(cs@.len() as int) =~= cs@);
    }
    r
}

} // verus!
