//! `lctl get_param` output split into one block per parameter as it is read,
//! so a scrape never holds more than one block of text.
//!
//! The reading is left to the caller: [`LctlRecords`] is the state of the
//! split. The caller asks it for the next [`Step`]; on [`Step::NeedLine`]
//! it reads a line (up to and including `\n`) and hands over what came of
//! the read as a [`ReadEvent`].

use crate::lctl::{
    LustreCollectorError, lemma_reaches_between, lemma_reaches_end, lemma_reaches_forward,
    lemma_reaches_trans, lemma_segment, parse_lctl_block, reaches, records_between, shifted,
    spec_parse_lctl, spec_parse_text, spec_record, spec_records,
};
use crate::types::{Record, RecordView};
use vstd::prelude::*;
use vstd::utf8::{
    decode_utf8, decode_utf8_split, is_char_boundary_iff_is_leading_byte,
    is_char_boundary_start_end_of_seq, valid_utf8, valid_utf8_concat,
};

verus! {

#[verifier::external_type_specification]
#[verifier::external_body]
pub struct ExIoError(std::io::Error);

/// Why a block yields no records.
#[derive(Debug)]
pub enum BlockError {
    /// The block does not parse; the rest of the output is still read.
    Parse { header: String, source: LustreCollectorError },
    /// Reading failed: nothing after the error is available.
    Read(std::io::Error),
}

pub open spec fn is_ascii_alphanumeric(b: u8) -> bool {
    (0x30 <= b && b <= 0x39) || (0x41 <= b && b <= 0x5a) || (0x61 <= b && b <= 0x7a)
}

/// Whether `needle` occurs in `haystack`.
pub open spec fn spec_contains(haystack: Seq<u8>, needle: Seq<u8>) -> bool {
    exists|i: int| 0 <= i && i + needle.len() <= haystack.len() && #[trigger] haystack.subrange(i, i + needle.len()) == needle
}

/// Whether `needle` stands in `haystack` at `start`.
fn occurs_at(haystack: &[u8], start: usize, needle: &[u8]) -> (r: bool)
    requires
        start + needle@.len() <= haystack@.len(),
    ensures
        r == (haystack@.subrange(start as int, start + needle@.len()) == needle@),
{
    let n = needle.len();
    let mut j: usize = 0;
    while j < n
        invariant
            n == needle@.len(),
            start + n <= haystack.len(),
            j <= n,
            forall|k: int| 0 <= k < j ==> haystack@[start + k] == needle@[k],
        decreases n - j,
    {
        if haystack[start + j] != needle[j] {
            proof {
                assert(haystack@.subrange(start as int, start + n)[j as int] != needle@[j as int]);
            }
            return false;
        }
        j += 1;
    }
    proof {
        assert(haystack@.subrange(start as int, start + n) =~= needle@);
    }
    true
}

/// Whether `needle` occurs in `haystack`.
pub fn contains(haystack: &[u8], needle: &[u8]) -> (r: bool)
    requires
        needle@.len() > 0,
    ensures
        r == spec_contains(haystack@, needle@),
{
    let n = needle.len();
    if n > haystack.len() {
        return false;
    }
    let last = haystack.len() - n;
    let mut i: usize = 0;
    while i <= last
        invariant
            n == needle@.len(),
            n > 0,
            last + n == haystack.len(),
            i <= last + 1,
            forall|k: int| 0 <= k < i ==> #[trigger] haystack@.subrange(k, k + n) != needle@,
        decreases last + 1 - i,
    {
        if occurs_at(haystack, i, needle) {
            return true;
        }
        i += 1;
    }
    proof {
        assert forall|k: int| 0 <= k && k + n <= haystack@.len() implies #[trigger] haystack@.subrange(k, k + n) != needle@ by {
            assert(k < i);
        }
    }
    false
}

/// `\n`.
pub open spec fn newline() -> u8 {
    0x0a
}

/// The first line of `block`, without its newline; all of it when it has none.
pub open spec fn spec_first_line(block: Seq<u8>) -> Seq<u8>
    decreases block.len(),
{
    if block.len() == 0 || block[0] == newline() {
        Seq::empty()
    } else {
        seq![block[0]] + spec_first_line(block.drop_first())
    }
}

pub fn first_line(block: &[u8]) -> (r: Vec<u8>)
    ensures
        r@ == spec_first_line(block@),
{
    let mut r: Vec<u8> = Vec::new();
    let mut i: usize = 0;
    proof {
        assert(block@.skip(0) =~= block@);
        assert(r@ + spec_first_line(block@) =~= spec_first_line(block@));
    }
    while i < block.len() && block[i] != 0x0a
        invariant
            i <= block@.len(),
            spec_first_line(block@) == r@ + spec_first_line(block@.skip(i as int)),
        decreases block@.len() - i,
    {
        proof {
            assert(block@.skip(i as int).drop_first() =~= block@.skip(i + 1));
            assert(r@ + (seq![block@[i as int]] + spec_first_line(block@.skip(i + 1))) =~= r@.push(block@[i as int])
                + spec_first_line(block@.skip(i + 1)));
        }
        r.push(block[i]);
        i += 1;
    }
    proof {
        assert(r@ + Seq::<u8>::empty() =~= r@);
    }
    r
}

/// `.exports.` and `.uuid=`.
pub open spec fn exports_marker() -> Seq<u8> {
    seq![0x2e, 0x65, 0x78, 0x70, 0x6f, 0x72, 0x74, 0x73, 0x2e]
}

pub open spec fn uuid_marker() -> Seq<u8> {
    seq![0x2e, 0x75, 0x75, 0x69, 0x64, 0x3d]
}

/// A line that starts a parameter: it starts with an ASCII letter or digit
/// and holds a `=`. No value line in the kernel's output is both.
pub open spec fn spec_is_param_header(line: Seq<u8>) -> bool {
    line.len() > 0 && is_ascii_alphanumeric(line[0]) && line.contains(0x3d)
}

pub fn is_param_header(line: &[u8]) -> (r: bool)
    ensures
        r == spec_is_param_header(line@),
{
    if line.len() == 0 {
        return false;
    }
    let c = line[0];
    if !((0x30 <= c && c <= 0x39) || (0x41 <= c && c <= 0x5a) || (0x61 <= c && c <= 0x7a)) {
        return false;
    }
    let mut i: usize = 0;
    while i < line.len()
        invariant
            i <= line@.len(),
            line@.len() > 0 && is_ascii_alphanumeric(line@[0]),
            forall|k: int| 0 <= k < i ==> line@[k] != 0x3d,
        decreases line@.len() - i,
    {
        if line[i] == 0x3d {
            proof {
                assert(line@[i as int] == 0x3d);
                assert(line@.contains(0x3d));
            }
            return true;
        }
        i += 1;
    }
    false
}

/// A line of a target's exports: the collector parses a target's exports as
/// one unit.
pub open spec fn spec_is_exports_header(line: Seq<u8>) -> bool {
    spec_contains(line, exports_marker()) && spec_contains(line, uuid_marker())
}

pub fn is_exports_header(line: &[u8]) -> (r: bool)
    ensures
        r == spec_is_exports_header(line@),
{
    let exports: [u8; 9] = [0x2e, 0x65, 0x78, 0x70, 0x6f, 0x72, 0x74, 0x73, 0x2e];
    let uuid: [u8; 6] = [0x2e, 0x75, 0x75, 0x69, 0x64, 0x3d];
    proof {
        assert(exports@ =~= exports_marker());
        assert(uuid@ =~= uuid_marker());
    }
    contains(line, exports.as_slice()) && contains(line, uuid.as_slice())
}

/// Whether `line` starts a new block after `block`: it is a parameter header,
/// unless it and the block's first line are both exports headers.
pub open spec fn starts_block(line: Seq<u8>, block: Seq<u8>) -> bool {
    spec_is_param_header(line) && !(spec_is_exports_header(line) && spec_is_exports_header(
        spec_first_line(block),
    ))
}

/// What `String::from_utf8_lossy` makes of `bytes`: the bytes as text, each
/// maximal invalid sequence replaced by U+FFFD.
pub uninterp spec fn lossy_decode(bytes: Seq<u8>) -> Seq<char>;

/// `String::from_utf8_lossy`, owned. Its result is named by `lossy_decode`;
/// of valid UTF-8 it is the decoded text, as std's documentation says.
#[verifier::external_body]
fn lossy_text(bytes: &[u8]) -> (r: String)
    ensures
        r@ == lossy_decode(bytes@),
        valid_utf8(bytes@) ==> r@ == decode_utf8(bytes@),
{
    String::from_utf8_lossy(bytes).into_owned()
}

/// Whether `header` is the first line of `block` as `from_utf8_lossy` gives
/// it: the decoded line when the line is UTF-8.
pub open spec fn names_block(header: Seq<char>, block: Seq<u8>) -> bool {
    &&& header == lossy_decode(spec_first_line(block))
    &&& valid_utf8(spec_first_line(block)) ==> header == decode_utf8(spec_first_line(block))
}

/// The records of a block, or the error with the block's first line.
pub fn parse_block(block: &[u8]) -> (r: Result<Vec<Record>, BlockError>)
    ensures
        match r {
            Ok(xs) => spec_parse_lctl(block@) == Ok::<Seq<RecordView>, LustreCollectorError>(xs.deep_view()),
            Err(BlockError::Parse { header, source }) => spec_parse_lctl(block@) == Err::<
                Seq<RecordView>,
                LustreCollectorError,
            >(source) && names_block(header@, block@),
            Err(BlockError::Read(_)) => false,
        },
{
    match parse_lctl_block(block) {
        Ok(xs) => Ok(xs),
        Err(source) => {
            let first = first_line(block);
            Err(BlockError::Parse { header: lossy_text(first.as_slice()), source })
        },
    }
}


/// Whether `pending` is what is left, at its end, of the records of the last
/// of `finished`.
#[verifier::opaque]
pub open spec fn from_last_block(finished: Seq<Seq<u8>>, pending: Seq<RecordView>) -> bool {
    &&& finished.len() > 0
    &&& match spec_parse_lctl(finished.last()) {
        Ok(rs) => pending.len() <= rs.len() && pending == rs.skip(rs.len() - pending.len()),
        Err(_) => false,
    }
}

proof fn lemma_fresh_block(finished: Seq<Seq<u8>>, rs: Seq<RecordView>)
    requires
        finished.len() > 0,
        spec_parse_lctl(finished.last()) == Ok::<Seq<RecordView>, LustreCollectorError>(rs),
    ensures
        from_last_block(finished, rs),
{
    reveal(from_last_block);
    assert(rs.skip(0) =~= rs);
}

proof fn lemma_hand_out(finished: Seq<Seq<u8>>, pending: Seq<RecordView>)
    requires
        pending.len() > 0,
        from_last_block(finished, pending),
    ensures
        from_last_block(finished, pending.drop_first()),
{
    reveal(from_last_block);
    if let Ok(rs) = spec_parse_lctl(finished.last()) {
        assert(rs.skip(rs.len() - pending.len()).drop_first() =~= rs.skip(
            rs.len() - pending.drop_first().len(),
        ));
    }
}

/// Texts, one after the other.
pub open spec fn join_text(ts: Seq<Seq<char>>) -> Seq<char>
    decreases ts.len(),
{
    if ts.len() == 0 {
        Seq::empty()
    } else {
        join_text(ts.drop_last()) + ts.last()
    }
}

/// Lists of records, one after the other.
pub open spec fn join_records(rs: Seq<Seq<RecordView>>) -> Seq<RecordView>
    decreases rs.len(),
{
    if rs.len() == 0 {
        Seq::empty()
    } else {
        join_records(rs.drop_last()) + rs.last()
    }
}

/// Where block `k` starts in the joined text.
pub open spec fn text_offset(ts: Seq<Seq<char>>, k: int) -> int {
    join_text(ts.take(k)).len() as int
}

/// Every block starts where the reading of the whole text has a record
/// start: no record runs from one block into the next.
pub open spec fn blocks_start_records(ts: Seq<Seq<char>>) -> bool {
    forall|k: int|
        0 <= k < ts.len() ==> #[trigger] reaches(join_text(ts), 0, text_offset(ts, k))
}

/// Every record of the whole text parses from its own block as it does from
/// the whole text: what comes after a block does not change how its records
/// read.
pub open spec fn read_alike(ts: Seq<Seq<char>>) -> bool {
    forall|k: int, p: int|
        #![trigger reaches(join_text(ts), 0, p), ts[k]]
        0 <= k < ts.len() && reaches(join_text(ts), 0, p) && text_offset(ts, k) <= p
            < text_offset(ts, k + 1) ==> spec_record(ts[k], p - text_offset(ts, k)) == shifted(
            spec_record(join_text(ts), p),
            text_offset(ts, k),
        )
}

/// The records the reading of the whole text finds in each block.
pub open spec fn block_records(ts: Seq<Seq<char>>) -> Seq<Seq<RecordView>> {
    Seq::new(
        ts.len(),
        |k: int| records_between(join_text(ts), text_offset(ts, k), text_offset(ts, k + 1)),
    )
}

proof fn lemma_join_prefix(ts: Seq<Seq<char>>, k: int)
    requires
        0 <= k <= ts.len(),
    ensures
        join_text(ts.take(k)).len() <= join_text(ts).len(),
        join_text(ts).subrange(0, text_offset(ts, k)) == join_text(ts.take(k)),
    decreases ts.len(),
{
    if k == ts.len() {
        assert(ts.take(k) =~= ts);
    } else {
        let d = ts.drop_last();
        assert(ts.take(k) =~= d.take(k));
        lemma_join_prefix(d, k);
        assert(join_text(ts).subrange(0, text_offset(ts, k)) =~= join_text(d).subrange(
            0,
            text_offset(d, k),
        ));
    }
}

/// Block `k` is the joined text between its offset and the next.
proof fn lemma_block_in_join(ts: Seq<Seq<char>>, k: int)
    requires
        0 <= k < ts.len(),
    ensures
        text_offset(ts, k + 1) == text_offset(ts, k) + ts[k].len(),
        text_offset(ts, k + 1) <= join_text(ts).len(),
        join_text(ts).subrange(text_offset(ts, k), text_offset(ts, k + 1)) == ts[k],
{
    assert(ts.take(k + 1).drop_last() =~= ts.take(k));
    lemma_join_prefix(ts, k + 1);
    let t = join_text(ts);
    assert(t.subrange(text_offset(ts, k), text_offset(ts, k + 1)) =~= t.subrange(
        0,
        text_offset(ts, k + 1),
    ).subrange(text_offset(ts, k), text_offset(ts, k + 1)));
    assert(join_text(ts.take(k + 1)) == join_text(ts.take(k)) + ts[k]);
    assert((join_text(ts.take(k)) + ts[k]).subrange(text_offset(ts, k), text_offset(ts, k + 1))
        =~= ts[k]);
}

/// One block of a whole text that reads as the law below asks: the block
/// parses to its records, and the reading of the whole text from the block's
/// start is they followed by the reading from the next block's start.
proof fn lemma_one_block(ts: Seq<Seq<char>>, xs: Seq<RecordView>, k: int)
    requires
        spec_parse_text(join_text(ts)) == Ok::<Seq<RecordView>, LustreCollectorError>(xs),
        blocks_start_records(ts),
        read_alike(ts),
        0 <= k < ts.len(),
    ensures
        spec_parse_text(ts[k]) == Ok::<Seq<RecordView>, LustreCollectorError>(
            block_records(ts)[k],
        ),
        spec_records(join_text(ts), text_offset(ts, k)).0 == block_records(ts)[k] + spec_records(
            join_text(ts),
            text_offset(ts, k + 1),
        ).0,
        spec_records(join_text(ts), text_offset(ts, k)).1 == spec_records(
            join_text(ts),
            text_offset(ts, k + 1),
        ).1,
{
    let t = join_text(ts);
    let o = text_offset(ts, k);
    let e = text_offset(ts, k + 1);
    lemma_block_in_join(ts, k);
    assert(reaches(t, 0, o));
    if k + 1 < ts.len() {
        assert(reaches(t, 0, text_offset(ts, k + 1)));
    } else {
        assert(ts.take(k + 1) =~= ts);
        lemma_reaches_end(t, 0);
    }
    lemma_reaches_between(t, 0, o, e);
    assert forall|p: int| #![trigger reaches(t, o, p)]
        reaches(t, o, p) && p < e implies spec_record(t.subrange(o, e), p - o) == shifted(
            spec_record(t, p),
            o,
        ) by {
        lemma_reaches_trans(t, 0, o, p);
        lemma_reaches_forward(t, o, p);
        assert(reaches(join_text(ts), 0, p));
    }
    lemma_segment(t, o, e, o);
}

/// The first `m` blocks' records, then the reading from block `m`'s start,
/// are the reading of the whole text.
proof fn lemma_blocks_prefix(ts: Seq<Seq<char>>, xs: Seq<RecordView>, m: int)
    requires
        spec_parse_text(join_text(ts)) == Ok::<Seq<RecordView>, LustreCollectorError>(xs),
        blocks_start_records(ts),
        read_alike(ts),
        0 <= m <= ts.len(),
    ensures
        spec_records(join_text(ts), 0).0 == join_records(block_records(ts).take(m))
            + spec_records(join_text(ts), text_offset(ts, m)).0,
    decreases m,
{
    let t = join_text(ts);
    if m == 0 {
        assert(ts.take(0) =~= Seq::<Seq<char>>::empty());
        assert(join_records(block_records(ts).take(0)) =~= Seq::<RecordView>::empty());
        assert(Seq::<RecordView>::empty() + spec_records(t, 0).0 =~= spec_records(t, 0).0);
    } else {
        lemma_blocks_prefix(ts, xs, m - 1);
        lemma_one_block(ts, xs, m - 1);
        let r = block_records(ts);
        assert(r.take(m).drop_last() =~= r.take(m - 1));
        assert(join_records(r.take(m - 1)) + (r[m - 1] + spec_records(t, text_offset(ts, m)).0)
            =~= join_records(r.take(m)) + spec_records(t, text_offset(ts, m)).0);
    }
}

/// A whole `lctl get_param` text that parses, cut into blocks that each start
/// at a record and whose records read from the block as from the whole text:
/// each block parses, and the blocks' records, one block after the other,
/// are the records of the whole text.
pub proof fn whole_text_is_its_blocks(ts: Seq<Seq<char>>, xs: Seq<RecordView>)
    requires
        spec_parse_text(join_text(ts)) == Ok::<Seq<RecordView>, LustreCollectorError>(xs),
        blocks_start_records(ts),
        read_alike(ts),
    ensures
        forall|k: int|
            0 <= k < ts.len() ==> spec_parse_text(#[trigger] ts[k]) == Ok::<
                Seq<RecordView>,
                LustreCollectorError,
            >(block_records(ts)[k]),
        join_records(block_records(ts)) == xs,
{
    let t = join_text(ts);
    assert forall|k: int| 0 <= k < ts.len() implies spec_parse_text(#[trigger] ts[k]) == Ok::<
        Seq<RecordView>,
        LustreCollectorError,
    >(block_records(ts)[k]) by {
        lemma_one_block(ts, xs, k);
    }
    lemma_blocks_prefix(ts, xs, ts.len() as int);
    assert(ts.take(ts.len() as int) =~= ts);
    assert(block_records(ts).take(ts.len() as int) =~= block_records(ts));
    assert(spec_records(t, t.len() as int).0 =~= Seq::<RecordView>::empty()) by {
        if let Some((_, j)) = spec_record(t, t.len() as int) {
        }
    }
    assert(join_records(block_records(ts)) + Seq::<RecordView>::empty() =~= join_records(
        block_records(ts),
    ));
}


/// The texts of blocks of bytes.
pub open spec fn texts(bs: Seq<Seq<u8>>) -> Seq<Seq<char>> {
    bs.map_values(|b: Seq<u8>| decode_utf8(b))
}

proof fn lemma_decode_concat(b1: Seq<u8>, b2: Seq<u8>)
    requires
        valid_utf8(b1),
        valid_utf8(b2),
    ensures
        valid_utf8(b1 + b2),
        decode_utf8(b1 + b2) == decode_utf8(b1) + decode_utf8(b2),
{
    valid_utf8_concat(b1, b2);
    let b = b1 + b2;
    if b2.len() == 0 {
        assert(b =~= b1);
        assert(decode_utf8(b2) =~= Seq::<char>::empty());
        assert(decode_utf8(b1) + decode_utf8(b2) =~= decode_utf8(b1));
    } else {
        is_char_boundary_start_end_of_seq(b2);
        is_char_boundary_iff_is_leading_byte(b2, 0);
        assert(b[b1.len() as int] == b2[0]);
        is_char_boundary_iff_is_leading_byte(b, b1.len() as int);
        decode_utf8_split(b, b1.len() as int);
        assert(b.subrange(0, b1.len() as int) =~= b1);
        assert(b.subrange(b1.len() as int, b.len() as int) =~= b2);
    }
}

proof fn lemma_decode_flatten(bs: Seq<Seq<u8>>)
    requires
        forall|k: int| 0 <= k < bs.len() ==> valid_utf8(#[trigger] bs[k]),
    ensures
        valid_utf8(flatten(bs)),
        decode_utf8(flatten(bs)) == join_text(texts(bs)),
    decreases bs.len(),
{
    if bs.len() == 0 {
        assert(texts(bs) =~= Seq::<Seq<char>>::empty());
    } else {
        let d = bs.drop_last();
        assert forall|k: int| 0 <= k < d.len() implies valid_utf8(#[trigger] d[k]) by {
            assert(d[k] == bs[k]);
        }
        lemma_decode_flatten(d);
        assert(valid_utf8(bs[bs.len() - 1]));
        lemma_decode_concat(flatten(d), bs.last());
        assert(texts(bs).drop_last() =~= texts(d));
    }
}

/// The law of the split: whole `lctl get_param` output that parses, cut into
/// UTF-8 blocks that each start at a record and whose records read from the
/// block as from the whole output. Each block parses, and the blocks'
/// records, one block after the other, are the records of the whole output.
pub proof fn whole_output_is_its_blocks(bs: Seq<Seq<u8>>, xs: Seq<RecordView>)
    requires
        forall|k: int| 0 <= k < bs.len() ==> valid_utf8(#[trigger] bs[k]),
        spec_parse_lctl(flatten(bs)) == Ok::<Seq<RecordView>, LustreCollectorError>(xs),
        blocks_start_records(texts(bs)),
        read_alike(texts(bs)),
    ensures
        forall|k: int|
            0 <= k < bs.len() ==> spec_parse_lctl(#[trigger] bs[k]) == Ok::<
                Seq<RecordView>,
                LustreCollectorError,
            >(block_records(texts(bs))[k]),
        join_records(block_records(texts(bs))) == xs,
{
    lemma_decode_flatten(bs);
    whole_text_is_its_blocks(texts(bs), xs);
    assert forall|k: int| 0 <= k < bs.len() implies spec_parse_lctl(#[trigger] bs[k]) == Ok::<
        Seq<RecordView>,
        LustreCollectorError,
    >(block_records(texts(bs))[k]) by {
        assert(texts(bs)[k] == decode_utf8(bs[k]));
    }
}

/// What the caller does next.
pub enum Step {
    /// Hand this item out.
    Yield(Result<Record, BlockError>),
    /// The output is used up.
    Done,
    /// Read a line and hand over what came of it.
    NeedLine,
}

/// What came of reading a line.
pub enum ReadEvent {
    /// The input ended.
    Eof,
    /// A line, with its `\n` unless the input ended first.
    Line(Vec<u8>),
    /// The read failed.
    Error(std::io::Error),
}

/// The state of the split: the block being gathered, the records of the last
/// finished block not yet handed out (last first), and whether reading ended.
pub struct LctlRecords {
    block: Vec<u8>,
    pending: Vec<Record>,
    done: bool,
    /// The blocks handed to the parser so far.
    finished: Ghost<Seq<Seq<u8>>>,
    /// All bytes gathered into blocks so far.
    gathered: Ghost<Seq<u8>>,
}

/// The blocks, one after the other.
pub open spec fn flatten(blocks: Seq<Seq<u8>>) -> Seq<u8>
    decreases blocks.len(),
{
    if blocks.len() == 0 {
        Seq::empty()
    } else {
        flatten(blocks.drop_last()) + blocks.last()
    }
}

impl LctlRecords {
    /// The blocks handed to the parser so far.
    pub closed spec fn finished_blocks(&self) -> Seq<Seq<u8>> {
        self.finished@
    }

    /// All bytes gathered into blocks so far.
    pub closed spec fn gathered(&self) -> Seq<u8> {
        self.gathered@
    }

    /// The block being gathered.
    pub closed spec fn current_block(&self) -> Seq<u8> {
        self.block@
    }

    /// Whether reading has ended.
    pub closed spec fn is_done(&self) -> bool {
        self.done
    }

    /// The records not yet handed out, next first.
    pub closed spec fn pending_records(&self) -> Seq<RecordView> {
        self.pending.deep_view().reverse()
    }

    /// Every gathered byte is in a finished block or in the current one, in
    /// the order it was read; the records not yet handed out are what is left
    /// of the last finished block's.
    pub closed spec fn wf(&self) -> bool {
        &&& flatten(self.finished@) + self.block@ == self.gathered@
        &&& self.pending_records().len() > 0 ==> from_last_block(
            self.finished@,
            self.pending_records(),
        )
    }

    /// Between calls the split holds no more than one block's worth: the
    /// bytes read since the last block was handed to the parser, and what is
    /// left, in order, of the records of that last block.
    pub proof fn holds_one_block(&self)
        requires
            self.wf(),
        ensures
            self.current_block() == self.gathered().skip(
                flatten(self.finished_blocks()).len() as int,
            ),
            self.pending_records().len() > 0 ==> from_last_block(
                self.finished_blocks(),
                self.pending_records(),
            ),
    {
        assert(self.gathered@.skip(flatten(self.finished@).len() as int) =~= self.block@);
    }

    /// With no block being gathered (as after the end of the input), the
    /// blocks handed to the parser, one after the other, are exactly the
    /// bytes gathered: the split loses, repeats and reorders nothing.
    pub proof fn blocks_are_the_input(&self)
        requires
            self.wf(),
            self.current_block().len() == 0,
        ensures
            flatten(self.finished_blocks()) == self.gathered(),
    {
        assert(flatten(self.finished@) + self.block@ =~= flatten(self.finished@));
    }

    /// What the split hands to the parser, once no block is being gathered
    /// (as after the end of the input): where the output read parses and its
    /// blocks are UTF-8, start at records and read their records as the whole
    /// output does, each finished block parses and their records, block after
    /// block, are the records of the whole output.
    pub proof fn blocks_read_as_the_whole(&self, xs: Seq<RecordView>)
        requires
            self.wf(),
            self.current_block().len() == 0,
            forall|k: int|
                0 <= k < self.finished_blocks().len() ==> valid_utf8(
                    #[trigger] self.finished_blocks()[k],
                ),
            spec_parse_lctl(self.gathered()) == Ok::<Seq<RecordView>, LustreCollectorError>(xs),
            blocks_start_records(texts(self.finished_blocks())),
            read_alike(texts(self.finished_blocks())),
        ensures
            forall|k: int|
                0 <= k < self.finished_blocks().len() ==> spec_parse_lctl(
                    #[trigger] self.finished_blocks()[k],
                ) == Ok::<Seq<RecordView>, LustreCollectorError>(
                    block_records(texts(self.finished_blocks()))[k],
                ),
            join_records(block_records(texts(self.finished_blocks()))) == xs,
    {
        self.blocks_are_the_input();
        whole_output_is_its_blocks(self.finished_blocks(), xs);
    }

    /// The state before anything is read.
    pub fn new() -> (r: LctlRecords)
        ensures
            r.wf(),
            r.finished_blocks() == Seq::<Seq<u8>>::empty(),
            r.gathered() == Seq::<u8>::empty(),
            r.current_block() == Seq::<u8>::empty(),
            !r.is_done(),
            r.pending_records() == Seq::<RecordView>::empty(),
    {
        let r = LctlRecords {
            block: Vec::new(),
            pending: Vec::new(),
            done: false,
            finished: Ghost(Seq::empty()),
            gathered: Ghost(Seq::empty()),
        };
        proof {
            assert(flatten(Seq::<Seq<u8>>::empty()) + Seq::<u8>::empty() =~= Seq::<u8>::empty());
            assert(r.pending.deep_view().reverse() =~= Seq::<RecordView>::empty());
        }
        r
    }

    /// Parses the current block and starts an empty one.
    pub fn finish_block(&mut self) -> (r: Result<(), BlockError>)
        requires
            old(self).wf(),
            old(self).pending_records().len() == 0,
        ensures
            final(self).wf(),
            final(self).finished_blocks() == old(self).finished_blocks().push(old(self).current_block()),
            final(self).gathered() == old(self).gathered(),
            final(self).current_block() == Seq::<u8>::empty(),
            final(self).is_done() == old(self).is_done(),
            match r {
                Ok(()) => spec_parse_lctl(old(self).current_block()) == Ok::<
                    Seq<RecordView>,
                    LustreCollectorError,
                >(final(self).pending_records()),
                Err(BlockError::Parse { header, source }) => spec_parse_lctl(old(self).current_block())
                    == Err::<Seq<RecordView>, LustreCollectorError>(source)
                    && names_block(header@, old(self).current_block())
                    && final(self).pending_records() == old(self).pending_records(),
                Err(BlockError::Read(_)) => false,
            },
    {
        let parsed = parse_block(self.block.as_slice());
        let ghost b = self.block@;
        proof {
            self.finished@ = self.finished@.push(b);
            assert(self.finished@.drop_last() =~= old(self).finished@);
        }
        self.block.clear();
        proof {
            assert(flatten(self.finished@) + self.block@ =~= flatten(old(self).finished@) + b);
        }
        match parsed {
            Ok(mut xs) => {
                let ghost xv = xs.deep_view();
                let mut pending: Vec<Record> = Vec::new();
                proof {
                    assert(xv =~= xs.deep_view() + pending.deep_view().reverse());
                }
                while xs.len() > 0
                    invariant
                        xv == xs.deep_view() + pending.deep_view().reverse(),
                    decreases xs.len(),
                {
                    let ghost xs_before = xs.deep_view();
                    let ghost p_before = pending.deep_view();
                    match xs.pop() {
                        Some(x) => {
                            let ghost xd = x.deep_view();
                            pending.push(x);
                            proof {
                                assert(xs.deep_view() =~= xs_before.drop_last());
                                assert(pending.deep_view() =~= p_before.push(xd));
                                assert(pending.deep_view().reverse() =~= seq![xd] + p_before.reverse());
                                assert(xs_before =~= xs.deep_view().push(xd));
                                assert(xs_before + p_before.reverse() =~= xs.deep_view() + pending.deep_view().reverse());
                            }
                        },
                        None => {},
                    }
                }
                proof {
                    assert(xs.deep_view() + pending.deep_view().reverse() =~= pending.deep_view().reverse());
                    assert(self.finished@.last() == b);
                    lemma_fresh_block(self.finished@, xv);
                }
                self.pending = pending;
                Ok(())
            },
            Err(e) => Err(e),
        }
    }

    /// What to do next: hand out a pending record, stop, or read a line.
    pub fn step(&mut self) -> (r: Step)
        requires
            old(self).wf(),
        ensures
            final(self).wf(),
            final(self).finished_blocks() == old(self).finished_blocks(),
            final(self).gathered() == old(self).gathered(),
            final(self).current_block() == old(self).current_block(),
            final(self).is_done() == old(self).is_done(),
            old(self).pending_records().len() > 0 ==> (r matches Step::Yield(Ok(x)) && x.deep_view()
                == old(self).pending_records()[0] && final(self).pending_records()
                == old(self).pending_records().drop_first()),
            old(self).pending_records().len() == 0 ==> final(self).pending_records().len() == 0
                && if old(self).is_done() { r is Done } else { r is NeedLine },
    {
        let ghost before = self.pending.deep_view();
        match self.pending.pop() {
            Some(x) => {
                proof {
                    assert(self.pending.deep_view() =~= before.drop_last());
                    assert(before.reverse()[0] == before.last());
                    assert(before.drop_last().reverse() =~= before.reverse().drop_first());
                    lemma_hand_out(self.finished@, before.reverse());
                }
                Step::Yield(Ok(x))
            },
            None => {
                if self.done {
                    Step::Done
                } else {
                    Step::NeedLine
                }
            },
        }
    }

    /// Appends `line` to the current block.
    fn gather(&mut self, line: &Vec<u8>)
        requires
            old(self).wf(),
        ensures
            final(self).wf(),
            final(self).finished_blocks() == old(self).finished_blocks(),
            final(self).current_block() == old(self).current_block() + line@,
            final(self).gathered() == old(self).gathered() + line@,
            final(self).is_done() == old(self).is_done(),
            final(self).pending_records() == old(self).pending_records(),
    {
        let mut k: usize = 0;
        let ghost b0 = self.block@;
        let ghost g0 = self.gathered@;
        while k < line.len()
            invariant
                k <= line@.len(),
                self.block@ == b0 + line@.take(k as int),
                self.gathered@ == g0 + line@.take(k as int),
                self.finished@ == old(self).finished@,
                self.pending == old(self).pending,
                self.done == old(self).done,
                b0 == old(self).block@,
                g0 == old(self).gathered@,
                flatten(self.finished@) + b0 == g0,
            decreases line@.len() - k,
        {
            self.block.push(line[k]);
            proof {
                assert(line@.take(k + 1) =~= line@.take(k as int).push(line@[k as int]));
                self.gathered@ = self.gathered@.push(line@[k as int]);
            }
            k += 1;
        }
        proof {
            assert(line@.take(line@.len() as int) =~= line@);
            assert(flatten(self.finished@) + self.block@ =~= self.gathered@);
        }
    }

    /// Hands over what came of reading a line. A block is finished when a
    /// line starts the next one, or when the input ends; the error of a
    /// block that does not parse, or of the read, is returned to be handed
    /// out. A line without its `\n` (the last one) gets one, unless the
    /// block it ends does not parse.
    pub fn on_read(&mut self, event: ReadEvent) -> (r: Option<BlockError>)
        requires
            old(self).wf(),
            !old(self).is_done(),
            old(self).pending_records().len() == 0,
        ensures
            final(self).wf(),
            r matches Some(BlockError::Parse { header, source }) ==> spec_parse_lctl(
                old(self).current_block(),
            ) == Err::<Seq<RecordView>, LustreCollectorError>(source) && names_block(
                header@,
                old(self).current_block(),
            ),
            match event {
                ReadEvent::Eof => {
                    &&& final(self).is_done()
                    &&& final(self).gathered() == old(self).gathered()
                    &&& final(self).current_block() == Seq::<u8>::empty()
                    &&& !(r matches Some(BlockError::Read(_)))
                    &&& if old(self).current_block().len() == 0 {
                        final(self).finished_blocks() == old(self).finished_blocks() && r is None
                            && final(self).pending_records().len() == 0
                    } else {
                        &&& final(self).finished_blocks() == old(self).finished_blocks().push(
                            old(self).current_block(),
                        )
                        &&& r is None ==> spec_parse_lctl(old(self).current_block()) == Ok::<
                            Seq<RecordView>,
                            LustreCollectorError,
                        >(final(self).pending_records())
                        &&& r is Some ==> final(self).pending_records().len() == 0
                    }
                },
                ReadEvent::Error(_) => {
                    &&& final(self).is_done()
                    &&& r matches Some(BlockError::Read(_))
                    &&& final(self).finished_blocks() == old(self).finished_blocks()
                    &&& final(self).gathered() == old(self).gathered()
                    &&& final(self).current_block() == old(self).current_block()
                    &&& final(self).pending_records().len() == 0
                },
                ReadEvent::Line(line) => {
                    let splits = starts_block(line@, old(self).current_block())
                        && old(self).current_block().len() > 0;
                    let tail = if r is None && !ends_with_newline(line@) {
                        seq![newline()]
                    } else {
                        Seq::empty()
                    };
                    &&& !final(self).is_done()
                    &&& r is Some ==> splits && (r matches Some(BlockError::Parse { .. })) && final(self).pending_records().len() == 0
                    &&& final(self).finished_blocks() == if splits {
                        old(self).finished_blocks().push(old(self).current_block())
                    } else {
                        old(self).finished_blocks()
                    }
                    &&& splits ==> final(self).current_block() == line@ + tail
                    &&& !splits ==> final(self).current_block() == old(self).current_block() + line@ + tail
                    &&& final(self).gathered() == old(self).gathered() + line@ + tail
                    &&& (splits && r is None) ==> spec_parse_lctl(old(self).current_block()) == Ok::<
                        Seq<RecordView>,
                        LustreCollectorError,
                    >(final(self).pending_records())
                    &&& !splits ==> final(self).pending_records().len() == 0
                },
            },
    {
        match event {
            ReadEvent::Eof => {
                self.done = true;
                if self.block.len() == 0 {
                    return None;
                }
                match self.finish_block() {
                    Ok(()) => None,
                    Err(e) => Some(e),
                }
            },
            ReadEvent::Error(e) => {
                self.done = true;
                Some(BlockError::Read(e))
            },
            ReadEvent::Line(line) => {
                let header = is_param_header(line.as_slice());
                let first = first_line(self.block.as_slice());
                let starts = header && !(is_exports_header(line.as_slice()) && is_exports_header(
                    first.as_slice(),
                ));
                if starts && self.block.len() > 0 {
                    let finished = self.finish_block();
                    self.gather(&line);
                    if let Err(e) = finished {
                        proof {
                            assert(self.block@ =~= line@ + Seq::<u8>::empty());
                            assert(self.gathered@ =~= old(self).gathered@ + line@ + Seq::<u8>::empty());
                        }
                        return Some(e);
                    }
                } else {
                    self.gather(&line);
                }
                let ghost before = self.block@;
                let ghost gbefore = self.gathered@;
                if !(line.len() > 0 && line[line.len() - 1] == 0x0a) {
                    self.block.push(0x0a);
                    proof {
                        self.gathered@ = self.gathered@.push(newline());
                        assert(flatten(self.finished@) + self.block@ =~= self.gathered@);
                    }
                }
                proof {
                    if line@.len() > 0 && line@.last() == 0x0a {
                        assert(self.block@ =~= before + Seq::<u8>::empty());
                        assert(self.gathered@ =~= gbefore + Seq::<u8>::empty());
                    }
                    assert(old(self).block@ + line@ + seq![newline()] =~= (old(self).block@ + line@).push(newline()));
                    assert(line@ + seq![newline()] =~= line@.push(newline()));
                    assert(old(self).gathered@ + line@ + seq![newline()] =~= (old(self).gathered@ + line@).push(newline()));
                    assert(Seq::<u8>::empty() + line@ =~= line@);
                }
                None
            },
        }
    }
}

/// The state of a split of `lctl get_param` output before anything is read.
pub fn lctl_records() -> (r: LctlRecords)
    ensures
        r.wf(),
        r.finished_blocks() == Seq::<Seq<u8>>::empty(),
        r.gathered() == Seq::<u8>::empty(),
        r.current_block() == Seq::<u8>::empty(),
        !r.is_done(),
        r.pending_records() == Seq::<RecordView>::empty(),
{
    LctlRecords::new()
}

/// Whether `line` ends with `\n`.
pub open spec fn ends_with_newline(line: Seq<u8>) -> bool {
    line.len() > 0 && line.last() == newline()
}

} // verus!
