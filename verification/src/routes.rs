//! What the `/metrics` handler decides without doing I/O: its query
//! parameters, its configuration, and which lines of `lctl`'s stderr are
//! expected.

use crate::client::ClientLabels;
use crate::strings::{contains_str, has_substring};
use crate::text::{
    chars_of, is_ws, lemma_scan, lemma_scan_upto, scan, scan_class, scan_class_upto, string_of,
    CharClass,
};
use vstd::prelude::*;

verus! {

/// The query parameters of a scrape; both are off unless given as `true`.
#[derive(Debug, Clone, Copy, PartialEq, Eq, Structural)]
pub struct Params {
    /// Collect jobstats as well (`jobstats=true`).
    pub jobstats: bool,
    /// Reset the MDTs' `md_stats` after collecting (`reset_mdt_md_stats=true`).
    pub reset_mdt_md_stats: bool,
}

/// How the exporter labels what it serves.
#[derive(Clone, Copy, Debug, PartialEq, Eq, Structural)]
pub struct ExporterConfig {
    pub client_labels: ClientLabels,
}

impl Default for ExporterConfig {
    fn default() -> (r: Self)
        ensures
            r.client_labels == ClientLabels::PerTarget,
    {
        ExporterConfig { client_labels: ClientLabels::PerTarget }
    }
}

/// The stderr line that `lctl get_param` prints for a pattern that matches
/// nothing on the node, which the exporter's list always has; a parameter
/// that could not be read prints `read_param:` instead.
pub fn is_expected_stderr(line: &str) -> (r: bool)
    ensures
        r == (has_substring(line@, "param_path '"@) && has_substring(
            line@,
            "No such file or directory"@,
        )),
{
    contains_str(line, "param_path '") && contains_str(line, "No such file or directory")
}

/// The signal a child gets when the exporter stops reading its output early.
pub const SIGPIPE: i32 = 13;

/// Whether a child that ended by `signal` (if a signal ended it) left its
/// output incomplete: any signal but `SIGPIPE` does, and then the scrape fails.
pub fn killed_mid_output(signal: Option<i32>) -> (r: bool)
    ensures
        r == (signal matches Some(sig) && sig != SIGPIPE),
{
    match signal {
        Some(sig) => sig != SIGPIPE,
        None => false,
    }
}

/// A line as `str::lines` hands it out once its `\n` is gone: without a `\r`
/// just before that `\n`.
pub open spec fn without_cr(l: Seq<char>) -> Seq<char> {
    if l.len() > 0 && l.last() == '\r' {
        l.drop_last()
    } else {
        l
    }
}

/// `str::lines` of `s[i..]`: split at each `\n`, a `\r` before the `\n`
/// dropped, and no empty line after a final `\n`.
pub open spec fn lines_from(s: Seq<char>, i: int) -> Seq<Seq<char>>
    decreases s.len() - i,
{
    if 0 <= i < s.len() {
        let p = scan(s, i, CharClass::NotNewline);
        if p < s.len() {
            proof {
                lemma_scan(s, i, CharClass::NotNewline);
            }
            seq![without_cr(s.subrange(i, p))] + lines_from(s, p + 1)
        } else {
            seq![s.subrange(i, s.len() as int)]
        }
    } else {
        Seq::empty()
    }
}

/// Whether `l.trim()` is empty: every character is whitespace.
pub open spec fn is_blank(l: Seq<char>) -> bool {
    forall|j: int| 0 <= j < l.len() ==> is_ws(#[trigger] l[j])
}

/// A stderr line worth counting: not blank and not the expected
/// "no such parameter" line.
pub open spec fn is_unexpected(l: Seq<char>) -> bool {
    !is_blank(l) && !(has_substring(l, "param_path '"@) && has_substring(
        l,
        "No such file or directory"@,
    ))
}

/// The unexpected lines among `lines`, in order.
pub open spec fn keep_unexpected(lines: Seq<Seq<char>>) -> Seq<Seq<char>>
    decreases lines.len(),
{
    if lines.len() == 0 {
        Seq::empty()
    } else {
        (if is_unexpected(lines[0]) {
            seq![lines[0]]
        } else {
            Seq::empty()
        }) + keep_unexpected(lines.drop_first())
    }
}

/// The lines of a child's stderr that count as errors, in order: those that
/// are neither blank nor the expected "no such parameter" line. Their number
/// is what `lustre_exporter_command_errors` records.
pub fn unexpected_stderr(stderr: &str) -> (r: Vec<String>)
    ensures
        r@.map_values(|l: String| l@) == keep_unexpected(lines_from(stderr@, 0)),
{
    let cs = chars_of(stderr);
    let n = cs.len();
    let mut out: Vec<String> = Vec::new();
    let mut i: usize = 0;
    while i < n
        invariant
            cs@ == stderr@,
            n == cs@.len(),
            i <= n,
            out@.map_values(|l: String| l@) + keep_unexpected(lines_from(cs@, i as int))
                == keep_unexpected(lines_from(cs@, 0)),
        decreases n - i,
    {
        let p = scan_class(cs.as_slice(), i, CharClass::NotNewline);
        let mut end = p;
        if p < n && p > i && cs[p - 1] == '\r' {
            end = p - 1;
        }
        let line = string_of(cs.as_slice(), i, end);
        let ws_end = scan_class_upto(cs.as_slice(), i, end, CharClass::Whitespace);
        let blank = ws_end == end;
        let unexpected = !blank && !is_expected_stderr(line.as_str());
        let next = if p < n {
            p + 1
        } else {
            n
        };
        proof {
            let s = cs@;
            lemma_scan(s, i as int, CharClass::NotNewline);
            lemma_scan_upto(s, i as int, end as int, CharClass::Whitespace);
            if p < n {
                assert(line@ == without_cr(s.subrange(i as int, p as int))) by {
                    if p > i && s[p - 1] == '\r' {
                        assert(s.subrange(i as int, p as int).drop_last() =~= s.subrange(
                            i as int,
                            end as int,
                        ));
                    }
                }
            } else {
                assert(lines_from(s, n as int) =~= Seq::<Seq<char>>::empty());
            }
            let rest = lines_from(s, next as int);
            let here = lines_from(s, i as int);
            assert(here =~= seq![line@] + rest);
            assert(here[0] == line@);
            assert(here.drop_first() =~= rest);
            if blank {
                assert forall|j: int| 0 <= j < line@.len() implies is_ws(#[trigger] line@[j]) by {
                    assert(line@[j] == s[i + j]);
                }
            } else {
                assert(line@[ws_end - i] == s[ws_end as int]);
                assert(!is_ws(line@[ws_end - i]));
            }
            assert(is_unexpected(line@) == unexpected);
        }
        let ghost before = out@.map_values(|l: String| l@);
        if unexpected {
            out.push(line);
            proof {
                assert(out@.map_values(|l: String| l@) =~= before + seq![line@]);
            }
        }
        proof {
            let rest = lines_from(cs@, next as int);
            let opt = if unexpected {
                seq![line@]
            } else {
                Seq::<Seq<char>>::empty()
            };
            assert(keep_unexpected(lines_from(cs@, i as int)) =~= opt + keep_unexpected(rest));
            assert(out@.map_values(|l: String| l@) =~= before + opt);
            assert(before + opt + keep_unexpected(rest) =~= before + (opt + keep_unexpected(rest)));
        }
        i = next;
    }
    proof {
        assert(lines_from(cs@, n as int) =~= Seq::<Seq<char>>::empty());
        assert(keep_unexpected(Seq::<Seq<char>>::empty()) =~= Seq::<Seq<char>>::empty());
        assert(out@.map_values(|l: String| l@) + Seq::<Seq<char>>::empty() =~= out@.map_values(
            |l: String| l@,
        ));
    }
    out
}

} // verus!
