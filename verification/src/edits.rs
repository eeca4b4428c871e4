use vstd::prelude::*;
use vstd::string::StringSliceAdditionalSpecFns;

use crate::framing::push_raw;
use crate::keys::utf8;
use crate::limits::sat_add;
use crate::planner::PlanError;
use crate::request::FileEdit;
use crate::request::LineAnchor;
use crate::request::LineRange;
use crate::text::decimal_chars;
use crate::text::digit_text;
use crate::text::hex_char_of;
use crate::text::push_decimal;
use crate::text::text;

verus! {

/// Width of a line hash in hexadecimal characters.
pub const LINE_HASH_WIDTH: usize = 4;

/// xxHash32 of the bytes with the given seed, as computed by the `xxhash-rust` crate.
pub uninterp spec fn xxh32(data: Seq<u8>, seed: u32) -> u32;

/// Calls `xxhash_rust::xxh32::xxh32`; the contract claims only that the result is the
/// xxHash32 of exactly these bytes and seed.
#[verifier::external_body]
fn xxh32_hash(data: &[u8], seed: u32) -> (r: u32)
    ensures
        r == xxh32(data@, seed),
{
    xxhash_rust::xxh32::xxh32(data, seed)
}

/// UTF-8 validity of the bytes.
fn utf8_valid(bytes: &[u8]) -> (r: bool)
    ensures
        r == vstd::utf8::valid_utf8(bytes@),
{
    crate::text::str_from_utf8(bytes).is_some()
}

/// Maximum bytes a compiled after-image may hold.
#[derive(Clone, Copy, Debug, PartialEq, Eq, Structural)]
pub struct EditOutputLimit {
    pub max_bytes: u64,
}

#[derive(Clone, Copy, Debug, PartialEq, Eq, Structural)]
pub enum LineEnding {
    CrLf,
    Lf,
    Cr,
    Unterminated,
}

pub open spec fn ending_bytes(e: LineEnding) -> Seq<u8> {
    match e {
        LineEnding::CrLf => seq![13u8, 10u8],
        LineEnding::Lf => seq![10u8],
        LineEnding::Cr => seq![13u8],
        LineEnding::Unterminated => seq![],
    }
}

impl LineEnding {
    pub fn as_bytes(self) -> (r: &'static [u8])
        ensures
            r@ == ending_bytes(self),
    {
        match self {
            LineEnding::CrLf => {
                let r: &'static [u8] = &[13u8, 10u8];
                assert(r@ =~= ending_bytes(self));
                r
            },
            LineEnding::Lf => {
                let r: &'static [u8] = &[10u8];
                assert(r@ =~= ending_bytes(self));
                r
            },
            LineEnding::Cr => {
                let r: &'static [u8] = &[13u8];
                assert(r@ =~= ending_bytes(self));
                r
            },
            LineEnding::Unterminated => {
                let r: &'static [u8] = &[];
                assert(r@ =~= ending_bytes(self));
                r
            },
        }
    }
}

/// One line of a document: its text, its terminator, the original line it came from
/// (none for inserted text) and the original line an `InsertAfter` attached it to.
pub struct LineView {
    pub text: Seq<u8>,
    pub ending: LineEnding,
    pub original_line: Option<u64>,
    pub inserted_after: Option<u64>,
}

#[derive(Debug)]
pub struct TextLine {
    pub text: Vec<u8>,
    pub ending: LineEnding,
    pub original_line: Option<u64>,
    pub inserted_after: Option<u64>,
}

impl View for TextLine {
    type V = LineView;

    open spec fn view(&self) -> LineView {
        LineView {
            text: self.text@,
            ending: self.ending,
            original_line: self.original_line,
            inserted_after: self.inserted_after,
        }
    }
}

pub open spec fn lines_view(lines: Seq<TextLine>) -> Seq<LineView> {
    lines.map_values(|l: TextLine| l@)
}

/// Abstract state of a document being edited.
pub struct DocView {
    pub bom: bool,
    pub original: Seq<Seq<u8>>,
    pub lines: Seq<LineView>,
    pub deleted: Seq<bool>,
    pub fallback: LineEnding,
}

pub struct TextDocument {
    pub bom: bool,
    pub original_lines: Vec<Vec<u8>>,
    pub lines: Vec<TextLine>,
    pub deleted: Vec<bool>,
    pub fallback_ending: LineEnding,
}

impl View for TextDocument {
    type V = DocView;

    open spec fn view(&self) -> DocView {
        DocView {
            bom: self.bom,
            original: self.original_lines@.map_values(|t: Vec<u8>| t@),
            lines: lines_view(self.lines@),
            deleted: self.deleted@,
            fallback: self.fallback_ending,
        }
    }
}

// ----- splitting bytes into lines -----

pub open spec fn new_line(text: Seq<u8>, ending: LineEnding, number: int) -> LineView {
    LineView { text, ending, original_line: Some(number as u64), inserted_after: None }
}

/// Lines of `b` from `index` on, where the current line began at `start` and `count` lines
/// came before it. A terminator is `\r\n`, a lone `\r` or a lone `\n`; a final unterminated
/// remainder is a line without ending.
pub open spec fn scan_lines(b: Seq<u8>, start: int, index: int, count: int) -> Seq<LineView>
    decreases b.len() - index,
{
    if index >= b.len() || index < start || start < 0 {
        if 0 <= start < b.len() {
            seq![new_line(b.subrange(start, b.len() as int), LineEnding::Unterminated, count + 1)]
        } else {
            seq![]
        }
    } else if b[index] == 13 && index + 1 < b.len() && b[index + 1] == 10 {
        seq![new_line(b.subrange(start, index), LineEnding::CrLf, count + 1)] + scan_lines(
            b,
            index + 2,
            index + 2,
            count + 1,
        )
    } else if b[index] == 13 {
        seq![new_line(b.subrange(start, index), LineEnding::Cr, count + 1)] + scan_lines(
            b,
            index + 1,
            index + 1,
            count + 1,
        )
    } else if b[index] == 10 {
        seq![new_line(b.subrange(start, index), LineEnding::Lf, count + 1)] + scan_lines(
            b,
            index + 1,
            index + 1,
            count + 1,
        )
    } else {
        scan_lines(b, start, index + 1, count)
    }
}

pub open spec fn has_bom(b: Seq<u8>) -> bool {
    b.len() >= 3 && b[0] == 0xef && b[1] == 0xbb && b[2] == 0xbf
}

pub open spec fn body(b: Seq<u8>) -> Seq<u8> {
    if has_bom(b) {
        b.subrange(3, b.len() as int)
    } else {
        b
    }
}

/// The first real terminator among the lines, or `\n` when there is none.
pub open spec fn first_ending(lines: Seq<LineView>) -> LineEnding
    decreases lines.len(),
{
    if lines.len() == 0 {
        LineEnding::Lf
    } else if lines[0].ending != LineEnding::Unterminated {
        lines[0].ending
    } else {
        first_ending(lines.drop_first())
    }
}

/// The document that parsing valid UTF-8 bytes yields.
pub open spec fn parse_doc(b: Seq<u8>) -> DocView {
    let lines = scan_lines(body(b), 0, 0, 0);
    DocView {
        bom: has_bom(b),
        original: lines.map_values(|l: LineView| l.text),
        lines,
        deleted: Seq::new(lines.len(), |i: int| false),
        fallback: first_ending(lines),
    }
}

// ----- encoding a document -----

pub open spec fn line_bytes(l: LineView) -> Seq<u8> {
    l.text + ending_bytes(l.ending)
}

pub open spec fn lines_bytes(lines: Seq<LineView>) -> Seq<u8>
    decreases lines.len(),
{
    if lines.len() == 0 {
        Seq::empty()
    } else {
        lines_bytes(lines.drop_last()) + line_bytes(lines.last())
    }
}

pub open spec fn bom_bytes() -> Seq<u8> {
    seq![0xefu8, 0xbbu8, 0xbfu8]
}

pub open spec fn encode_doc(d: DocView) -> Seq<u8> {
    (if d.bom {
        bom_bytes()
    } else {
        Seq::empty()
    }) + lines_bytes(d.lines)
}

/// Saturating byte count of the first `n` lines on top of the byte-order mark.
pub open spec fn encoded_len_prefix(d: DocView, n: int) -> int
    decreases n,
{
    if n <= 0 {
        if d.bom {
            3
        } else {
            0
        }
    } else {
        sat_add(
            sat_add(encoded_len_prefix(d, n - 1), d.lines[n - 1].text.len() as int),
            ending_bytes(d.lines[n - 1].ending).len() as int,
        )
    }
}

pub open spec fn encoded_len(d: DocView) -> int {
    encoded_len_prefix(d, d.lines.len() as int)
}

// ----- parsing, executable -----

fn copy_range(bytes: &[u8], start: usize, end: usize) -> (r: Vec<u8>)
    requires
        start <= end <= bytes@.len(),
    ensures
        r@ == bytes@.subrange(start as int, end as int),
{
    let mut out: Vec<u8> = Vec::new();
    push_raw(&mut out, &bytes[start..end]);
    assert(out@ =~= bytes@.subrange(start as int, end as int));
    out
}

proof fn lemma_scan_unfold_plain(b: Seq<u8>, start: int, index: int, count: int)
    requires
        0 <= start <= index < b.len(),
        b[index] != 13 && b[index] != 10,
    ensures
        scan_lines(b, start, index, count) == scan_lines(b, start, index + 1, count),
{
}

impl TextDocument {
    /// Splits valid UTF-8 bytes into lines, remembering a byte-order mark and the first
    /// terminator as the fallback for inserted lines.
    pub fn parse(path: &str, contents: &[u8]) -> (r: Result<Self, PlanError>)
        ensures
            !vstd::utf8::valid_utf8(contents@) ==> (r matches Err(PlanError::InvalidUtf8 { path: p })
                && p@ == path@),
            vstd::utf8::valid_utf8(contents@) ==> (r matches Ok(d) && d@ == parse_doc(contents@)
                && d.wf()),
    {
        if !utf8_valid(contents) {
            return Err(PlanError::InvalidUtf8 { path: text(path) });
        }
        let bom = contents.len() >= 3 && contents[0] == 0xef && contents[1] == 0xbb && contents[2]
            == 0xbf;
        let bytes: &[u8] = if bom {
            &contents[3..contents.len()]
        } else {
            contents
        };
        assert(bytes@ =~= body(contents@));
        let ghost all = scan_lines(bytes@, 0, 0, 0);
        let mut lines: Vec<TextLine> = Vec::new();
        let mut start: usize = 0;
        let mut index: usize = 0;
        while index < bytes.len()
            invariant
                start <= index <= bytes@.len(),
                lines_view(lines@) + scan_lines(bytes@, start as int, index as int, lines@.len() as int)
                    == all,
                forall|i: int| 0 <= i < lines@.len() ==> #[trigger] lines@[i].original_line == Some((i + 1) as u64),
                forall|i: int| 0 <= i < lines@.len() ==> #[trigger] lines@[i].inserted_after is None,
                lines@.len() <= start,
            decreases bytes@.len() - index,
        {
            let b = bytes[index];
            if b == 13 && index + 1 < bytes.len() && bytes[index + 1] == 10 {
                let line = TextLine {
                    text: copy_range(bytes, start, index),
                    ending: LineEnding::CrLf,
                    original_line: Some(lines.len() as u64 + 1),
                    inserted_after: None,
                };
                proof {
                    assert(line@ == new_line(bytes@.subrange(start as int, index as int), LineEnding::CrLf, lines@.len() + 1 as int));
                }
                let ghost prev = lines@;
                lines.push(line);
                index = index + 2;
                start = index;
                proof {
                    assert(lines_view(lines@) =~= lines_view(prev) + seq![line@]);
                }
            } else if b == 13 || b == 10 {
                let ending = if b == 13 {
                    LineEnding::Cr
                } else {
                    LineEnding::Lf
                };
                let line = TextLine {
                    text: copy_range(bytes, start, index),
                    ending,
                    original_line: Some(lines.len() as u64 + 1),
                    inserted_after: None,
                };
                let ghost prev = lines@;
                lines.push(line);
                index = index + 1;
                start = index;
                proof {
                    assert(lines_view(lines@) =~= lines_view(prev) + seq![line@]);
                }
            } else {
                proof {
                    lemma_scan_unfold_plain(bytes@, start as int, index as int, lines@.len() as int);
                }
                index = index + 1;
            }
        }
        if start < bytes.len() {
            let line = TextLine {
                text: copy_range(bytes, start, bytes.len()),
                ending: LineEnding::Unterminated,
                original_line: Some(lines.len() as u64 + 1),
                inserted_after: None,
            };
            let ghost prev = lines@;
            lines.push(line);
            proof {
                assert(lines_view(lines@) =~= lines_view(prev) + seq![line@]);
            }
        }
        assert(lines_view(lines@) =~= all);
        let fallback_ending = first_real_ending(&lines);
        let mut original_lines: Vec<Vec<u8>> = Vec::new();
        let mut deleted: Vec<bool> = Vec::new();
        let mut i: usize = 0;
        while i < lines.len()
            invariant
                i <= lines@.len(),
                original_lines@.len() == i,
                deleted@.len() == i,
                forall|j: int| 0 <= j < i ==> #[trigger] original_lines@[j]@ == lines@[j].text@,
                forall|j: int| 0 <= j < i ==> !#[trigger] deleted@[j],
            decreases lines@.len() - i,
        {
            original_lines.push(copy_range(lines[i].text.as_slice(), 0, lines[i].text.len()));
            deleted.push(false);
            proof {
                assert(lines@[i as int].text@.subrange(0, lines@[i as int].text@.len() as int) =~= lines@[i as int].text@);
            }
            i += 1;
        }
        let doc = TextDocument { bom, original_lines, lines, deleted, fallback_ending };
        assert(doc@.original =~= parse_doc(contents@).original);
        assert(doc@.deleted =~= parse_doc(contents@).deleted);
        Ok(doc)
    }

    /// Structural invariant: one deletion flag per original line.
    pub open spec fn wf(&self) -> bool {
        self.deleted@.len() == self.original_lines@.len()
    }
}

fn first_real_ending(lines: &Vec<TextLine>) -> (r: LineEnding)
    ensures
        r == first_ending(lines_view(lines@)),
{
    let mut i: usize = 0;
    assert(lines_view(lines@).skip(0) =~= lines_view(lines@));
    while i < lines.len()
        invariant
            i <= lines@.len(),
            first_ending(lines_view(lines@)) == first_ending(lines_view(lines@).skip(i as int)),
        decreases lines@.len() - i,
    {
        let ghost rest = lines_view(lines@).skip(i as int);
        assert(rest[0] == lines@[i as int]@);
        if lines[i].ending != LineEnding::Unterminated {
            return lines[i].ending;
        }
        assert(rest.drop_first() =~= lines_view(lines@).skip(i + 1));
        i += 1;
    }
    assert(lines_view(lines@).skip(i as int).len() == 0);
    LineEnding::Lf
}


// ----- line hashes -----

/// The 16-bit line hash: the low half of the seed-0 xxHash32 of the line's bytes.
pub open spec fn line_hash_value(text: Seq<u8>) -> int {
    (xxh32(text, 0) as int) % 65536
}

/// The four lower-case hexadecimal characters of a line's hash.
pub open spec fn line_hash_chars(text: Seq<u8>) -> Seq<char> {
    let v = line_hash_value(text);
    seq![
        hex_char_of(v / 4096),
        hex_char_of(v / 256 % 16),
        hex_char_of(v / 16 % 16),
        hex_char_of(v % 16),
    ]
}

pub open spec fn is_hex_byte(c: u8) -> bool {
    (48 <= c <= 57) || (97 <= c <= 102) || (65 <= c <= 70)
}

pub open spec fn lower_byte(c: u8) -> u8 {
    if 65 <= c <= 90 {
        (c + 32) as u8
    } else {
        c
    }
}

/// A well-formed anchor hash: exactly four ASCII hexadecimal digits.
pub open spec fn hash_well_formed(h: Seq<u8>) -> bool {
    h.len() == 4 && forall|i: int| 0 <= i < 4 ==> #[trigger] is_hex_byte(h[i])
}

/// An anchor hash names the line's hash, ignoring ASCII case.
pub open spec fn hash_matches(h: Seq<u8>, text: Seq<u8>) -> bool {
    let actual = line_hash_chars(text);
    h.len() == 4 && forall|i: int| 0 <= i < 4 ==> #[trigger] lower_byte(h[i]) == actual[i] as u8
}

fn hash_value(text: &[u8]) -> (r: u32)
    ensures
        r as int == line_hash_value(text@),
        r < 65536,
{
    xxh32_hash(text, 0) % 65536
}

/// The four-character hash of one line of text.
pub fn line_hash(input: &str) -> (r: String)
    ensures
        r@ == line_hash_chars(input.spec_bytes()),
{
    line_hash_text(input.as_bytes())
}

fn line_hash_text(text: &[u8]) -> (r: String)
    ensures
        r@ == line_hash_chars(text@),
{
    let v = hash_value(text);
    let mut out = String::new();
    out.append(digit_text((v / 4096) as u8));
    out.append(digit_text((v / 256 % 16) as u8));
    out.append(digit_text((v / 16 % 16) as u8));
    out.append(digit_text((v % 16) as u8));
    assert(out@ =~= line_hash_chars(text@));
    out
}

fn hex_byte(c: u8) -> (r: bool)
    ensures
        r == is_hex_byte(c),
{
    (48 <= c && c <= 57) || (97 <= c && c <= 102) || (65 <= c && c <= 70)
}

fn lower(c: u8) -> (r: u8)
    ensures
        r == lower_byte(c),
{
    if 65 <= c && c <= 90 {
        c + 32
    } else {
        c
    }
}

fn hash_is_well_formed(h: &[u8]) -> (r: bool)
    ensures
        r == hash_well_formed(h@),
{
    if h.len() != 4 {
        return false;
    }
    let mut i: usize = 0;
    while i < 4
        invariant
            h@.len() == 4,
            i <= 4,
            forall|j: int| 0 <= j < i ==> #[trigger] is_hex_byte(h@[j]),
        decreases 4 - i,
    {
        if !hex_byte(h[i]) {
            return false;
        }
        i += 1;
    }
    true
}

fn hash_equals(h: &[u8], text: &[u8]) -> (r: bool)
    ensures
        r == hash_matches(h@, text@),
{
    if h.len() != 4 {
        return false;
    }
    let v = hash_value(text);
    let digits: [u8; 4] = [
        hex_ascii((v / 4096) as u8),
        hex_ascii((v / 256 % 16) as u8),
        hex_ascii((v / 16 % 16) as u8),
        hex_ascii((v % 16) as u8),
    ];
    let ghost actual = line_hash_chars(text@);
    assert(forall|i: int| 0 <= i < 4 ==> #[trigger] digits@[i] == actual[i] as u8);
    let mut i: usize = 0;
    while i < 4
        invariant
            h@.len() == 4,
            i <= 4,
            actual == line_hash_chars(text@),
            forall|k: int| 0 <= k < 4 ==> #[trigger] digits@[k] == actual[k] as u8,
            forall|j: int| 0 <= j < i ==> #[trigger] lower_byte(h@[j]) == actual[j] as u8,
        decreases 4 - i,
    {
        if lower(h[i]) != digits[i] {
            return false;
        }
        i += 1;
    }
    true
}

fn hex_ascii(v: u8) -> (r: u8)
    requires
        v < 16,
    ensures
        r == hex_char_of(v as int) as u8,
{
    if v < 10 {
        48 + v
    } else {
        87 + v
    }
}


// ----- why an edit fails -----

/// The reason an edit list cannot be compiled.
pub enum EditIssue {
    InvalidUtf8,
    InvalidEdits,
    OutsideRange { line: u64, len: nat },
    AlreadyReplaced { line: u64 },
    BadHashFormat { line: u64 },
    HashMismatch { line: u64, expected: Seq<char>, actual: Seq<char> },
    RangeBackwards { start: u64, end: u64 },
    RangeOrderChanged,
    EmptyInsert,
    EmbeddedLineEnding,
    OutputLimit { observed: u64, limit: u64 },
}

/// The text of an anchor error.
pub open spec fn anchor_reason(issue: EditIssue) -> Seq<char> {
    match issue {
        EditIssue::OutsideRange { line, len } => "line "@ + decimal_chars(line)
            + " is outside file range 1..="@ + decimal_chars(len as u64),
        EditIssue::AlreadyReplaced { line } => "line "@ + decimal_chars(line) + " was already replaced"@,
        EditIssue::BadHashFormat { line } => "line "@ + decimal_chars(line)
            + " hash must contain exactly 4 hexadecimal characters"@,
        EditIssue::HashMismatch { line, expected, actual } => "line "@ + decimal_chars(line)
            + " hash mismatch: expected "@ + expected + ", found "@ + actual,
        EditIssue::RangeBackwards { start, end } => "range starts at line "@ + decimal_chars(start)
            + " after line "@ + decimal_chars(end),
        EditIssue::RangeOrderChanged => "range order changed after earlier edits"@,
        _ => Seq::empty(),
    }
}

/// The plan error that reports an edit issue for the file at `path`.
pub open spec fn issue_error(e: PlanError, path: Seq<char>, issue: EditIssue) -> bool {
    match issue {
        EditIssue::InvalidUtf8 => e matches PlanError::InvalidUtf8 { path: p } && p@ == path,
        EditIssue::InvalidEdits => e matches PlanError::InvalidEdits { path: p } && p@ == path,
        EditIssue::OutputLimit { observed, limit } => e == PlanError::Limit {
            resource: "file bytes",
            observed,
            limit,
        },
        EditIssue::EmptyInsert => e matches PlanError::InvalidEditText { path: p, reason } && p@
            == path && reason@ == "inserted lines must not be empty"@,
        EditIssue::EmbeddedLineEnding => e matches PlanError::InvalidEditText { path: p, reason }
            && p@ == path && reason@ == "line values must not contain line endings"@,
        _ => e matches PlanError::InvalidAnchor { path: p, reason } && p@ == path && reason@
            == anchor_reason(issue),
    }
}

// ----- the edit operations -----

pub open spec fn require_line(d: DocView, line: u64) -> Result<int, EditIssue> {
    if 1 <= line <= d.original.len() {
        if d.deleted[line - 1] {
            Err(EditIssue::AlreadyReplaced { line })
        } else {
            Ok(line - 1)
        }
    } else {
        Err(EditIssue::OutsideRange { line, len: d.original.len() })
    }
}

/// Position of the first current line that came from original line `n`, searching from `i`.
pub open spec fn find_line(lines: Seq<LineView>, n: u64, i: int) -> Option<int>
    decreases lines.len() - i,
{
    if i < 0 || i >= lines.len() {
        None
    } else if lines[i].original_line == Some(n) {
        Some(i)
    } else {
        find_line(lines, n, i + 1)
    }
}

/// Current position of the line an anchor names, after checking its number and hash.
pub open spec fn anchor_position(d: DocView, anchor: LineAnchor) -> Result<int, EditIssue> {
    let hash = utf8(anchor.expected_hash@);
    match require_line(d, anchor.line) {
        Err(e) => Err(e),
        Ok(i) => if !hash_well_formed(hash) {
            Err(EditIssue::BadHashFormat { line: anchor.line })
        } else if !hash_matches(hash, d.original[i]) {
            Err(
                EditIssue::HashMismatch {
                    line: anchor.line,
                    expected: anchor.expected_hash@,
                    actual: line_hash_chars(d.original[i]),
                },
            )
        } else {
            match find_line(d.lines, anchor.line, 0) {
                Some(p) => Ok(p),
                None => Err(EditIssue::AlreadyReplaced { line: anchor.line }),
            }
        },
    }
}

pub open spec fn has_break(t: Seq<u8>) -> bool {
    exists|i: int| 0 <= i < t.len() && (t[i] == 13 || t[i] == 10)
}

/// The bytes of each requested line.
pub open spec fn texts_of(lines: Seq<String>) -> Seq<Seq<u8>> {
    lines.map_values(|l: String| utf8(l@))
}

/// New lines for inserted or replacement text: the last takes `final_ending`, the rest the
/// document's fallback terminator.
pub open spec fn new_lines(
    texts: Seq<Seq<u8>>,
    final_ending: LineEnding,
    fallback: LineEnding,
    permit_empty: bool,
    inserted_after: Option<u64>,
) -> Result<Seq<LineView>, EditIssue> {
    if texts.len() == 0 && !permit_empty {
        Err(EditIssue::EmptyInsert)
    } else if exists|i: int| 0 <= i < texts.len() && #[trigger] has_break(texts[i]) {
        Err(EditIssue::EmbeddedLineEnding)
    } else {
        Ok(
            Seq::new(
                texts.len(),
                |i: int|
                    LineView {
                        text: texts[i],
                        ending: if i + 1 == texts.len() {
                            final_ending
                        } else {
                            fallback
                        },
                        original_line: None,
                        inserted_after,
                    },
            ),
        )
    }
}

pub open spec fn splice<T>(s: Seq<T>, start: int, end: int, replacement: Seq<T>) -> Seq<T> {
    s.take(start) + replacement + s.skip(end)
}

/// The first original line in `line..=last` that an earlier edit already replaced.
pub open spec fn first_deleted(d: DocView, line: int, last: int) -> Option<u64>
    decreases last + 1 - line,
{
    if line > last || line < 1 || line > d.deleted.len() {
        None
    } else if d.deleted[line - 1] {
        Some(line as u64)
    } else {
        first_deleted(d, line + 1, last)
    }
}

pub open spec fn replace_spec(d: DocView, range: LineRange, texts: Seq<Seq<u8>>) -> Result<
    DocView,
    EditIssue,
> {
    if range.start.line > range.end.line {
        Err(EditIssue::RangeBackwards { start: range.start.line, end: range.end.line })
    } else {
        match anchor_position(d, range.start) {
            Err(e) => Err(e),
            Ok(start) => match anchor_position(d, range.end) {
                Err(e) => Err(e),
                Ok(end) => match first_deleted(d, range.start.line as int, range.end.line as int) {
                    Some(line) => Err(EditIssue::AlreadyReplaced { line }),
                    None => if start > end {
                        Err(EditIssue::RangeOrderChanged)
                    } else {
                        match new_lines(texts, d.lines[end].ending, d.fallback, true, None) {
                            Err(e) => Err(e),
                            Ok(replacement) => Ok(
                                DocView {
                                    lines: splice(d.lines, start, end + 1, replacement),
                                    deleted: Seq::new(
                                        d.deleted.len(),
                                        |i: int|
                                            if range.start.line - 1 <= i <= range.end.line - 1 {
                                                true
                                            } else {
                                                d.deleted[i]
                                            },
                                    ),
                                    ..d
                                },
                            ),
                        }
                    },
                },
            },
        }
    }
}

pub open spec fn insert_before_spec(d: DocView, anchor: LineAnchor, texts: Seq<Seq<u8>>) -> Result<
    DocView,
    EditIssue,
> {
    match anchor_position(d, anchor) {
        Err(e) => Err(e),
        Ok(index) => match new_lines(texts, d.fallback, d.fallback, false, None) {
            Err(e) => Err(e),
            Ok(inserted) => Ok(DocView { lines: splice(d.lines, index, index, inserted), ..d }),
        },
    }
}

/// The position just past the lines already inserted after original line `n`.
pub open spec fn skip_inserted(lines: Seq<LineView>, n: u64, i: int) -> int
    decreases lines.len() - i,
{
    if 0 <= i < lines.len() && lines[i].inserted_after == Some(n) {
        skip_inserted(lines, n, i + 1)
    } else {
        i
    }
}

pub open spec fn insert_after_spec(d: DocView, anchor: LineAnchor, texts: Seq<Seq<u8>>) -> Result<
    DocView,
    EditIssue,
> {
    match anchor_position(d, anchor) {
        Err(e) => Err(e),
        Ok(index) => if texts.len() == 0 {
            Err(EditIssue::EmptyInsert)
        } else {
            let at = skip_inserted(d.lines, anchor.line, index + 1);
            let before = d.lines[at - 1];
            let unterminated = before.ending == LineEnding::Unterminated;
            let lines = if unterminated {
                d.lines.update(at - 1, LineView { ending: d.fallback, ..before })
            } else {
                d.lines
            };
            let final_ending = if unterminated {
                LineEnding::Unterminated
            } else {
                d.fallback
            };
            match new_lines(texts, final_ending, d.fallback, true, Some(anchor.line)) {
                Err(e) => Err(e),
                Ok(inserted) => Ok(DocView { lines: splice(lines, at, at, inserted), ..d }),
            }
        },
    }
}

#[verifier::opaque]
pub open spec fn apply_spec(d: DocView, edit: FileEdit) -> Result<DocView, EditIssue> {
    match edit {
        FileEdit::ReplaceAll { .. } => Err(EditIssue::InvalidEdits),
        FileEdit::ReplaceLines { range, lines } => replace_spec(d, range, texts_of(lines@)),
        FileEdit::InsertBefore { anchor, lines } => insert_before_spec(d, anchor, texts_of(lines@)),
        FileEdit::InsertAfter { anchor, lines } => insert_after_spec(d, anchor, texts_of(lines@)),
    }
}

/// The document after the first `n` edits, stopping at the first failure.
pub open spec fn apply_all_spec(d: DocView, edits: Seq<FileEdit>, n: int) -> Result<DocView, EditIssue>
    decreases n,
{
    if n <= 0 {
        Ok(d)
    } else {
        match apply_all_spec(d, edits, n - 1) {
            Err(e) => Err(e),
            Ok(next) => apply_spec(next, edits[n - 1]),
        }
    }
}

pub open spec fn finish_spec(d: DocView, limit: EditOutputLimit) -> Result<Seq<u8>, EditIssue> {
    if encoded_len(d) > limit.max_bytes {
        Err(EditIssue::OutputLimit { observed: encoded_len(d) as u64, limit: limit.max_bytes })
    } else {
        Ok(encode_doc(d))
    }
}

pub open spec fn limited(bytes: Seq<u8>, limit: EditOutputLimit) -> Result<Seq<u8>, EditIssue> {
    if bytes.len() > limit.max_bytes {
        Err(EditIssue::OutputLimit { observed: bytes.len() as u64, limit: limit.max_bytes })
    } else {
        Ok(bytes)
    }
}

/// The after-image that an edit list yields for the given before-image.
pub open spec fn compile_spec(
    before: Seq<u8>,
    edits: Seq<FileEdit>,
    allow_empty: bool,
    limit: EditOutputLimit,
) -> Result<Seq<u8>, EditIssue> {
    if !vstd::utf8::valid_utf8(before) {
        Err(EditIssue::InvalidUtf8)
    } else if edits.len() == 0 && allow_empty {
        limited(before, limit)
    } else if edits.len() == 1 && edits[0] is ReplaceAll {
        let contents = edits[0]->ReplaceAll_contents@;
        if !vstd::utf8::valid_utf8(contents) {
            Err(EditIssue::InvalidUtf8)
        } else {
            limited(contents, limit)
        }
    } else if edits.len() == 0 || exists|i: int| 0 <= i < edits.len() && #[trigger] edits[i] is ReplaceAll {
        Err(EditIssue::InvalidEdits)
    } else {
        match apply_all_spec(parse_doc(before), edits, edits.len() as int) {
            Err(e) => Err(e),
            Ok(d) => finish_spec(d, limit),
        }
    }
}


// ----- errors, executable -----

fn anchor_error(path: &str, reason: String) -> (e: PlanError)
    ensures
        e matches PlanError::InvalidAnchor { path: p, reason: r } && p@ == path@ && r@ == reason@,
{
    PlanError::InvalidAnchor { path: text(path), reason }
}

fn line_reason(line: u64, tail: &str) -> (r: String)
    ensures
        r@ == "line "@ + decimal_chars(line) + tail@,
{
    let mut reason = text("line ");
    push_decimal(&mut reason, line);
    reason.append(tail);
    reason
}

fn outside_range_error(path: &str, line: u64, len: usize) -> (e: PlanError)
    ensures
        issue_error(e, path@, EditIssue::OutsideRange { line, len: len as nat }),
{
    let mut reason = line_reason(line, " is outside file range 1..=");
    push_decimal(&mut reason, len as u64);
    anchor_error(path, reason)
}

fn already_replaced_error(path: &str, line: u64) -> (e: PlanError)
    ensures
        issue_error(e, path@, EditIssue::AlreadyReplaced { line }),
{
    anchor_error(path, line_reason(line, " was already replaced"))
}

fn bad_hash_error(path: &str, line: u64) -> (e: PlanError)
    ensures
        issue_error(e, path@, EditIssue::BadHashFormat { line }),
{
    anchor_error(path, line_reason(line, " hash must contain exactly 4 hexadecimal characters"))
}

fn hash_mismatch_error(path: &str, line: u64, expected: &String, actual: String) -> (e: PlanError)
    ensures
        issue_error(
            e,
            path@,
            EditIssue::HashMismatch { line, expected: expected@, actual: actual@ },
        ),
{
    let mut reason = line_reason(line, " hash mismatch: expected ");
    reason.append(expected.as_str());
    reason.append(", found ");
    reason.append(actual.as_str());
    anchor_error(path, reason)
}

fn range_backwards_error(path: &str, start: u64, end: u64) -> (e: PlanError)
    ensures
        issue_error(e, path@, EditIssue::RangeBackwards { start, end }),
{
    let mut reason = text("range starts at line ");
    push_decimal(&mut reason, start);
    reason.append(" after line ");
    push_decimal(&mut reason, end);
    anchor_error(path, reason)
}

fn range_order_error(path: &str) -> (e: PlanError)
    ensures
        issue_error(e, path@, EditIssue::RangeOrderChanged),
{
    anchor_error(path, text("range order changed after earlier edits"))
}

fn edit_text_error(path: &str, empty: bool) -> (e: PlanError)
    ensures
        empty ==> issue_error(e, path@, EditIssue::EmptyInsert),
        !empty ==> issue_error(e, path@, EditIssue::EmbeddedLineEnding),
{
    let reason = if empty {
        text("inserted lines must not be empty")
    } else {
        text("line values must not contain line endings")
    };
    PlanError::InvalidEditText { path: text(path), reason }
}

/// Rejects an after-image larger than the output limit.
pub fn check_output_limit(observed: u64, limit: EditOutputLimit) -> (r: Result<(), PlanError>)
    ensures
        observed <= limit.max_bytes ==> r is Ok,
        observed > limit.max_bytes ==> r == Err::<(), PlanError>(
            PlanError::Limit { resource: "file bytes", observed, limit: limit.max_bytes },
        ),
{
    if observed > limit.max_bytes {
        Err(PlanError::Limit { resource: "file bytes", observed, limit: limit.max_bytes })
    } else {
        Ok(())
    }
}

/// Rejects bytes that are not valid UTF-8.
pub fn validate_utf8(path: &str, contents: &[u8]) -> (r: Result<(), PlanError>)
    ensures
        vstd::utf8::valid_utf8(contents@) ==> r is Ok,
        !vstd::utf8::valid_utf8(contents@) ==> (r matches Err(e) && issue_error(
            e,
            path@,
            EditIssue::InvalidUtf8,
        )),
{
    if utf8_valid(contents) {
        Ok(())
    } else {
        Err(PlanError::InvalidUtf8 { path: text(path) })
    }
}

fn has_line_break(bytes: &[u8]) -> (r: bool)
    ensures
        r == has_break(bytes@),
{
    let mut i: usize = 0;
    while i < bytes.len()
        invariant
            i <= bytes@.len(),
            forall|j: int| 0 <= j < i ==> !(bytes@[j] == 13 || bytes@[j] == 10),
        decreases bytes@.len() - i,
    {
        if bytes[i] == 13 || bytes[i] == 10 {
            return true;
        }
        i += 1;
    }
    false
}

fn copy_bytes(bytes: &[u8]) -> (r: Vec<u8>)
    ensures
        r@ == bytes@,
{
    let mut out: Vec<u8> = Vec::new();
    push_raw(&mut out, bytes);
    assert(out@ =~= bytes@);
    out
}

fn splice_lines(lines: &mut Vec<TextLine>, start: usize, end: usize, replacement: Vec<TextLine>)
    requires
        start <= end <= old(lines)@.len(),
    ensures
        final(lines)@ == splice(old(lines)@, start as int, end as int, replacement@),
{
    let mut tail = lines.split_off(end);
    lines.truncate(start);
    let mut middle = replacement;
    lines.append(&mut middle);
    lines.append(&mut tail);
    assert(lines@ =~= splice(old(lines)@, start as int, end as int, replacement@));
}

proof fn lemma_splice_view(lines: Seq<TextLine>, start: int, end: int, replacement: Seq<TextLine>)
    requires
        0 <= start <= end <= lines.len(),
    ensures
        lines_view(splice(lines, start, end, replacement)) == splice(
            lines_view(lines),
            start,
            end,
            lines_view(replacement),
        ),
{
    assert(lines_view(splice(lines, start, end, replacement)) =~= splice(
        lines_view(lines),
        start,
        end,
        lines_view(replacement),
    ));
}

/// Builds inserted or replacement lines after checking that none holds a line terminator.
fn inserted_lines(
    path: &str,
    lines: &Vec<String>,
    final_ending: LineEnding,
    fallback: LineEnding,
    permit_empty: bool,
    inserted_after: Option<u64>,
) -> (r: Result<Vec<TextLine>, PlanError>)
    ensures
        match new_lines(texts_of(lines@), final_ending, fallback, permit_empty, inserted_after) {
            Ok(v) => r matches Ok(x) && lines_view(x@) == v,
            Err(issue) => r matches Err(e) && issue_error(e, path@, issue),
        },
{
    let ghost texts = texts_of(lines@);
    if lines.len() == 0 && !permit_empty {
        return Err(edit_text_error(path, true));
    }
    let mut out: Vec<TextLine> = Vec::new();
    let mut i: usize = 0;
    while i < lines.len()
        invariant
            i <= lines@.len(),
            texts == texts_of(lines@),
            out@.len() == i,
            forall|j: int| 0 <= j < i ==> !#[trigger] has_break(texts[j]),
            forall|j: int|
                0 <= j < i ==> #[trigger] out@[j]@ == (LineView {
                    text: texts[j],
                    ending: if j + 1 == lines@.len() {
                        final_ending
                    } else {
                        fallback
                    },
                    original_line: None,
                    inserted_after,
                }),
        decreases lines@.len() - i,
    {
        let bytes = lines[i].as_str().as_bytes();
        assert(bytes@ == texts[i as int]);
        if has_line_break(bytes) {
            return Err(edit_text_error(path, false));
        }
        let ending = if i + 1 == lines.len() {
            final_ending
        } else {
            fallback
        };
        out.push(TextLine { text: copy_bytes(bytes), ending, original_line: None, inserted_after });
        i += 1;
    }
    assert(!exists|j: int| 0 <= j < texts.len() && #[trigger] has_break(texts[j]));
    assert(lines_view(out@) =~= new_lines(texts, final_ending, fallback, permit_empty, inserted_after)->Ok_0);
    Ok(out)
}


/// The first index in `first..=last` already marked replaced.
fn first_replaced(deleted: &Vec<bool>, first: usize, last: usize) -> (r: Option<usize>)
    requires
        first <= last < deleted@.len(),
    ensures
        match r {
            Some(i) => first <= i <= last && i < usize::MAX && deleted@[i as int] && forall|j: int| first <= j < i ==> !deleted@[j],
            None => forall|j: int| first <= j <= last ==> !deleted@[j],
        },
{
    let count = deleted.len();
    let mut index = first;
    while index <= last
        invariant
            first <= index <= last + 1,
            last < deleted@.len(),
            count == deleted@.len(),
            forall|j: int| first <= j < index ==> !deleted@[j],
        decreases last + 1 - index,
    {
        if deleted[index] {
            return Some(index);
        }
        index += 1;
    }
    None
}

/// Marks `first..=last` replaced.
fn mark_replaced(deleted: &mut Vec<bool>, first: usize, last: usize)
    requires
        first <= last < old(deleted)@.len(),
    ensures
        final(deleted)@ == Seq::new(
            old(deleted)@.len(),
            |i: int| if first <= i <= last { true } else { old(deleted)@[i] },
        ),
{
    let count = deleted.len();
    let mut k = first;
    while k <= last
        invariant
            first <= k <= last + 1,
            last < deleted@.len(),
            count == deleted@.len(),
            deleted@.len() == old(deleted)@.len(),
            forall|i: int|
                0 <= i < deleted@.len() ==> #[trigger] deleted@[i] == if first <= i < k {
                    true
                } else {
                    old(deleted)@[i]
                },
        decreases last + 1 - k,
    {
        deleted.set(k, true);
        k += 1;
    }
    assert(deleted@ =~= Seq::new(
        old(deleted)@.len(),
        |i: int| if first <= i <= last { true } else { old(deleted)@[i] },
    ));
}

proof fn lemma_first_deleted(d: DocView, first: int, last: int, line: int)
    requires
        1 <= first + 1 <= line <= last + 2,
        last < d.deleted.len(),
        forall|j: int| first <= j < line - 1 ==> !d.deleted[j],
    ensures
        first_deleted(d, first + 1, last + 1) == first_deleted(d, line, last + 1),
    decreases line - first,
{
    if line > first + 1 {
        lemma_first_deleted(d, first, last, line - 1);
    }
}

impl TextDocument {
    /// The 0-based index of an original line that no earlier edit replaced.
    fn require_original_line(&self, path: &str, line: u64) -> (r: Result<usize, PlanError>)
        requires
            self.wf(),
        ensures
            match require_line(self@, line) {
                Ok(i) => r matches Ok(v) && v == i && 0 <= i < self@.original.len(),
                Err(issue) => r matches Err(e) && issue_error(e, path@, issue),
            },
    {
        if line < 1 || line > self.original_lines.len() as u64 {
            return Err(outside_range_error(path, line, self.original_lines.len()));
        }
        let index = (line - 1) as usize;
        if self.deleted[index] {
            Err(already_replaced_error(path, line))
        } else {
            Ok(index)
        }
    }

    /// Current position of an anchored line after checking its number and hash.
    fn anchor_index(&self, path: &str, anchor: &LineAnchor) -> (r: Result<usize, PlanError>)
        requires
            self.wf(),
        ensures
            match anchor_position(self@, *anchor) {
                Ok(i) => r matches Ok(v) && v == i && 0 <= i < self@.lines.len() && 1 <= anchor.line <= self@.original.len(),
                Err(issue) => r matches Err(e) && issue_error(e, path@, issue),
            },
    {
        let required = self.require_original_line(path, anchor.line);
        let original_index = match required {
            Ok(v) => v,
            Err(e) => {
                return Err(e);
            },
        };
        let hash = anchor.expected_hash.as_str().as_bytes();
        assert(require_line(self@, anchor.line) == Ok::<int, EditIssue>(original_index as int));
        assert(hash@ == utf8(anchor.expected_hash@));
        if !hash_is_well_formed(hash) {
            return Err(bad_hash_error(path, anchor.line));
        }
        let original = self.original_lines[original_index].as_slice();
        assert(self@.original[original_index as int] == original@);
        if !hash_equals(hash, original) {
            let actual = line_hash_text(original);
            return Err(hash_mismatch_error(path, anchor.line, &anchor.expected_hash, actual));
        }
        let ghost view = lines_view(self.lines@);
        let mut i: usize = 0;
        while i < self.lines.len()
            invariant
                i <= self.lines@.len(),
                view == lines_view(self.lines@),
                view == self@.lines,
                require_line(self@, anchor.line) == Ok::<int, EditIssue>(original_index as int),
                hash_well_formed(utf8(anchor.expected_hash@)),
                hash_matches(utf8(anchor.expected_hash@), self@.original[original_index as int]),
                find_line(view, anchor.line, 0) == find_line(view, anchor.line, i as int),
            decreases self.lines@.len() - i,
        {
            let found = match self.lines[i].original_line {
                Some(n) => n == anchor.line,
                None => false,
            };
            assert(view[i as int] == self.lines@[i as int]@);
            if found {
                assert(find_line(view, anchor.line, i as int) == Some(i as int));
                assert(self@.lines == view);
                assert(anchor_position(self@, *anchor) == Ok::<int, EditIssue>(i as int));
                return Ok(i);
            }
            i += 1;
        }
        assert(find_line(view, anchor.line, i as int) is None);
        Err(already_replaced_error(path, anchor.line))
    }

    fn replace(&mut self, path: &str, range: &LineRange, lines: &Vec<String>) -> (r: Result<(), PlanError>)
        requires
            old(self).wf(),
        ensures
            final(self).wf(),
            match replace_spec(old(self)@, *range, texts_of(lines@)) {
                Ok(d) => r is Ok && final(self)@ == d,
                Err(issue) => r matches Err(e) && issue_error(e, path@, issue),
            },
    {
        if range.start.line > range.end.line {
            return Err(range_backwards_error(path, range.start.line, range.end.line));
        }
        let start = match self.anchor_index(path, &range.start) {
            Ok(v) => v,
            Err(e) => {
                return Err(e);
            },
        };
        let end = match self.anchor_index(path, &range.end) {
            Ok(v) => v,
            Err(e) => {
                return Err(e);
            },
        };
        let ghost d = self@;
        let count = self.original_lines.len();
        let first = (range.start.line - 1) as usize;
        let last = (range.end.line - 1) as usize;
        match first_replaced(&self.deleted, first, last) {
            Some(index) => {
                proof {
                    lemma_first_deleted(d, first as int, last as int, index + 1);
                }
                return Err(already_replaced_error(path, (index + 1) as u64));
            },
            None => {
                proof {
                    lemma_first_deleted(d, first as int, last as int, last + 2);
                }
            },
        }
        if start > end {
            return Err(range_order_error(path));
        }
        let n_lines = self.lines.len();
        let final_ending = self.lines[end].ending;
        let replacement = match inserted_lines(path, lines, final_ending, self.fallback_ending, true, None) {
            Ok(v) => v,
            Err(e) => {
                return Err(e);
            },
        };
        proof {
            lemma_splice_view(self.lines@, start as int, end + 1, replacement@);
        }
        splice_lines(&mut self.lines, start, end + 1, replacement);
        mark_replaced(&mut self.deleted, first, last);
        assert(self@.deleted =~= replace_spec(d, *range, texts_of(lines@))->Ok_0.deleted);
        Ok(())
    }

    fn insert_before(&mut self, path: &str, anchor: &LineAnchor, lines: &Vec<String>) -> (r: Result<
        (),
        PlanError,
    >)
        requires
            old(self).wf(),
        ensures
            final(self).wf(),
            match insert_before_spec(old(self)@, *anchor, texts_of(lines@)) {
                Ok(d) => r is Ok && final(self)@ == d,
                Err(issue) => r matches Err(e) && issue_error(e, path@, issue),
            },
    {
        let index = match self.anchor_index(path, anchor) {
            Ok(v) => v,
            Err(e) => {
                return Err(e);
            },
        };
        let inserted = match inserted_lines(
            path,
            lines,
            self.fallback_ending,
            self.fallback_ending,
            false,
            None,
        ) {
            Ok(v) => v,
            Err(e) => {
                return Err(e);
            },
        };
        proof {
            lemma_splice_view(self.lines@, index as int, index as int, inserted@);
        }
        splice_lines(&mut self.lines, index, index, inserted);
        Ok(())
    }

    fn insert_after(&mut self, path: &str, anchor: &LineAnchor, lines: &Vec<String>) -> (r: Result<
        (),
        PlanError,
    >)
        requires
            old(self).wf(),
        ensures
            final(self).wf(),
            match insert_after_spec(old(self)@, *anchor, texts_of(lines@)) {
                Ok(d) => r is Ok && final(self)@ == d,
                Err(issue) => r matches Err(e) && issue_error(e, path@, issue),
            },
    {
        let count = self.lines.len();
        let anchor_index = match self.anchor_index(path, anchor) {
            Ok(v) => v,
            Err(e) => {
                return Err(e);
            },
        };
        if lines.len() == 0 {
            return Err(edit_text_error(path, true));
        }
        let ghost d = self@;
        let mut at = anchor_index + 1;
        while at < self.lines.len() && self.lines[at].inserted_after == Some(anchor.line)
            invariant
                anchor_index < at <= self.lines@.len(),
                self@ == d,
                skip_inserted(d.lines, anchor.line, anchor_index + 1) == skip_inserted(
                    d.lines,
                    anchor.line,
                    at as int,
                ),
            decreases self.lines@.len() - at,
        {
            assert(d.lines[at as int] == self.lines@[at as int]@);
            at += 1;
        }
        proof {
            if at < self.lines@.len() {
                assert(d.lines[at as int] == self.lines@[at as int]@);
            }
        }
        let fallback = self.fallback_ending;
        let final_ending = if self.lines[at - 1].ending == LineEnding::Unterminated {
            let mut before = self.lines.remove(at - 1);
            before.ending = fallback;
            self.lines.insert(at - 1, before);
            assert(lines_view(self.lines@) =~= d.lines.update(
                at - 1,
                LineView { ending: d.fallback, ..d.lines[at - 1] },
            ));
            LineEnding::Unterminated
        } else {
            fallback
        };
        let inserted = match inserted_lines(path, lines, final_ending, fallback, true, Some(anchor.line)) {
            Ok(v) => v,
            Err(e) => {
                return Err(e);
            },
        };
        proof {
            lemma_splice_view(self.lines@, at as int, at as int, inserted@);
        }
        splice_lines(&mut self.lines, at, at, inserted);
        Ok(())
    }

    /// Applies one line edit; a whole-file replacement is not a line edit.
    pub fn apply(&mut self, path: &str, edit: &FileEdit) -> (r: Result<(), PlanError>)
        requires
            old(self).wf(),
        ensures
            final(self).wf(),
            match apply_spec(old(self)@, *edit) {
                Ok(d) => r is Ok && final(self)@ == d,
                Err(issue) => r matches Err(e) && issue_error(e, path@, issue),
            },
    {
        proof {
            reveal(apply_spec);
        }
        match edit {
            FileEdit::ReplaceAll { .. } => Err(PlanError::InvalidEdits { path: text(path) }),
            FileEdit::ReplaceLines { range, lines } => self.replace(path, range, lines),
            FileEdit::InsertBefore { anchor, lines } => self.insert_before(path, anchor, lines),
            FileEdit::InsertAfter { anchor, lines } => self.insert_after(path, anchor, lines),
        }
    }

    /// Encodes the document, refusing before allocation when it exceeds the output limit.
    pub fn finish(&self, limit: EditOutputLimit) -> (r: Result<Vec<u8>, PlanError>)
        ensures
            match finish_spec(self@, limit) {
                Ok(out) => r matches Ok(v) && v@ == out,
                Err(issue) => r matches Err(e) && issue_error(e, Seq::empty(), issue),
            },
    {
        let ghost d = self@;
        let mut encoded: u64 = if self.bom {
            3
        } else {
            0
        };
        let mut i: usize = 0;
        while i < self.lines.len()
            invariant
                i <= self.lines@.len(),
                d == self@,
                encoded == encoded_len_prefix(d, i as int),
            decreases self.lines@.len() - i,
        {
            assert(d.lines[i as int] == self.lines@[i as int]@);
            encoded = encoded.saturating_add(self.lines[i].text.len() as u64).saturating_add(
                self.lines[i].ending.as_bytes().len() as u64,
            );
            i += 1;
        }
        check_output_limit(encoded, limit)?;
        let mut output: Vec<u8> = Vec::new();
        if self.bom {
            output.push(0xef);
            output.push(0xbb);
            output.push(0xbf);
        }
        let ghost head = output@;
        assert(head =~= (if d.bom { bom_bytes() } else { Seq::<u8>::empty() }));
        let mut j: usize = 0;
        while j < self.lines.len()
            invariant
                j <= self.lines@.len(),
                d == self@,
                output@ == head + lines_bytes(d.lines.take(j as int)),
            decreases self.lines@.len() - j,
        {
            assert(d.lines[j as int] == self.lines@[j as int]@);
            push_raw(&mut output, self.lines[j].text.as_slice());
            push_raw(&mut output, self.lines[j].ending.as_bytes());
            proof {
                let t = d.lines.take(j + 1);
                assert(t.drop_last() =~= d.lines.take(j as int));
            }
            j += 1;
        }
        assert(d.lines.take(d.lines.len() as int) =~= d.lines);
        Ok(output)
    }
}

/// Compiles an edit list against a before-image: no edits (when allowed) keeps the bytes,
/// a single whole-file replacement gives its contents, and line edits are applied in order
/// to the parsed document.
pub fn compile_edits(
    path: &str,
    before: &[u8],
    edits: Vec<FileEdit>,
    allow_empty: bool,
    limit: EditOutputLimit,
) -> (r: Result<Vec<u8>, PlanError>)
    ensures
        match compile_spec(before@, edits@, allow_empty, limit) {
            Ok(out) => r matches Ok(v) && v@ == out,
            Err(issue) => r matches Err(e) && issue_error(e, path@, issue),
        },
{
    validate_utf8(path, before)?;
    if edits.len() == 0 && allow_empty {
        check_output_limit(before.len() as u64, limit)?;
        return Ok(copy_bytes(before));
    }
    if edits.len() == 1 {
        match &edits[0] {
            FileEdit::ReplaceAll { contents } => {
                validate_utf8(path, contents.as_slice())?;
                check_output_limit(contents.len() as u64, limit)?;
                return Ok(copy_bytes(contents.as_slice()));
            },
            _ => {},
        }
    }
    let mut i: usize = 0;
    while i < edits.len()
        invariant
            i <= edits@.len(),
            vstd::utf8::valid_utf8(before@),
            !(edits@.len() == 0 && allow_empty),
            !(edits@.len() == 1 && edits@[0] is ReplaceAll),
            forall|j: int| 0 <= j < i ==> !(#[trigger] edits@[j] is ReplaceAll),
        decreases edits@.len() - i,
    {
        match &edits[i] {
            FileEdit::ReplaceAll { .. } => {
                assert(edits@[i as int] is ReplaceAll);
                return Err(PlanError::InvalidEdits { path: text(path) });
            },
            _ => {},
        }
        i += 1;
    }
    if edits.len() == 0 {
        return Err(PlanError::InvalidEdits { path: text(path) });
    }
    let mut document = match TextDocument::parse(path, before) {
        Ok(v) => v,
        Err(e) => {
            return Err(e);
        },
    };
    apply_edits(&mut document, path, &edits)?;
    document.finish(limit)
}

fn apply_edits(document: &mut TextDocument, path: &str, edits: &Vec<FileEdit>) -> (r: Result<(), PlanError>)
    requires
        old(document).wf(),
    ensures
        final(document).wf(),
        match apply_all_spec(old(document)@, edits@, edits@.len() as int) {
            Ok(d) => r is Ok && final(document)@ == d,
            Err(issue) => r matches Err(e) && issue_error(e, path@, issue),
        },
{
    let ghost start = document@;
    let mut k: usize = 0;
    while k < edits.len()
        invariant
            k <= edits@.len(),
            document.wf(),
            start == old(document)@,
            apply_all_spec(start, edits@, k as int) == Ok::<DocView, EditIssue>(document@),
        decreases edits@.len() - k,
    {
        let ghost before = document@;
        let applied = document.apply(path, &edits[k]);
        if applied.is_err() {
            proof {
                let s = apply_spec(before, edits@[k as int]);
                assert(apply_all_spec(start, edits@, k as int + 1) == s);
                assert(s is Err);
                lemma_apply_all_error_sticks(start, edits@, k as int + 1, edits@.len() as int);
                assert(apply_all_spec(start, edits@, edits@.len() as int) == s);
            }
            return applied;
        }
        k += 1;
    }
    Ok(())
}

proof fn lemma_apply_all_error_sticks(d: DocView, edits: Seq<FileEdit>, k: int, n: int)
    requires
        0 <= k <= n,
        apply_all_spec(d, edits, k) is Err,
    ensures
        apply_all_spec(d, edits, n) == apply_all_spec(d, edits, k),
    decreases n - k,
{
    if n > k {
        lemma_apply_all_error_sticks(d, edits, k, n - 1);
    }
}

} // verus!
