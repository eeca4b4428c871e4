use vstd::prelude::*;

use crate::edits::body;
use crate::edits::apply_spec;
use crate::edits::insert_before_spec;
use crate::edits::insert_after_spec;
use crate::edits::skip_inserted;
use crate::edits::texts_of;
use crate::request::FileEdit;
use crate::edits::xxh32;
use crate::edits::find_line;
use crate::edits::replace_spec;
use crate::edits::anchor_position;
use crate::edits::new_lines;
use crate::edits::splice;
use crate::request::LineRange;
use crate::edits::bom_bytes;
use crate::edits::encode_doc;
use crate::edits::encoded_len;
use crate::edits::encoded_len_prefix;
use crate::edits::finish_spec;
use crate::edits::DocView;
use crate::edits::EditIssue;
use crate::edits::EditOutputLimit;
use crate::edits::ending_bytes;
use crate::edits::has_bom;
use crate::edits::hash_matches;
use crate::edits::hash_well_formed;
use crate::edits::is_hex_byte;
use crate::edits::line_bytes;
use crate::edits::line_hash_chars;
use crate::edits::line_hash_value;
use crate::edits::lines_bytes;
use crate::edits::lower_byte;
use crate::edits::parse_doc;
use crate::edits::scan_lines;
use crate::edits::LineEnding;
use crate::edits::LineView;
use crate::keys::utf8;
use crate::text::hex_char_of;

verus! {

proof fn lemma_lines_bytes_prepend(first: LineView, rest: Seq<LineView>)
    ensures
        lines_bytes(seq![first] + rest) == line_bytes(first) + lines_bytes(rest),
    decreases rest.len(),
{
    let all = seq![first] + rest;
    if rest.len() == 0 {
        assert(all.drop_last() =~= Seq::<LineView>::empty());
        assert(all.last() == first);
        assert(lines_bytes(Seq::<LineView>::empty()) == Seq::<u8>::empty());
        assert(lines_bytes(all) =~= line_bytes(first) + lines_bytes(rest));
    } else {
        lemma_lines_bytes_prepend(first, rest.drop_last());
        assert(all.drop_last() =~= seq![first] + rest.drop_last());
        assert(all.last() == rest.last());
        assert(lines_bytes(all) =~= line_bytes(first) + lines_bytes(rest));
    }
}

/// Scanning from a line start reproduces every remaining byte.
proof fn lemma_scan_reproduces(b: Seq<u8>, start: int, index: int, count: int)
    requires
        0 <= start <= index <= b.len(),
        forall|j: int| start <= j < index ==> b[j] != 13 && b[j] != 10,
    ensures
        lines_bytes(scan_lines(b, start, index, count)) == b.subrange(start, b.len() as int),
    decreases b.len() - index,
{
    if index >= b.len() {
        if start < b.len() {
            let l = crate::edits::new_line(
                b.subrange(start, b.len() as int),
                LineEnding::Unterminated,
                count + 1,
            );
            lemma_lines_bytes_prepend(l, Seq::empty());
            assert(seq![l] + Seq::<LineView>::empty() =~= seq![l]);
            assert(line_bytes(l) =~= b.subrange(start, b.len() as int));
        } else {
            assert(b.subrange(start, b.len() as int) =~= Seq::<u8>::empty());
        }
    } else if b[index] == 13 && index + 1 < b.len() && b[index + 1] == 10 {
        let l = crate::edits::new_line(b.subrange(start, index), LineEnding::CrLf, count + 1);
        lemma_scan_reproduces(b, index + 2, index + 2, count + 1);
        lemma_lines_bytes_prepend(l, scan_lines(b, index + 2, index + 2, count + 1));
        assert(line_bytes(l) + b.subrange(index + 2, b.len() as int) =~= b.subrange(
            start,
            b.len() as int,
        ));
    } else if b[index] == 13 || b[index] == 10 {
        let e = if b[index] == 13 {
            LineEnding::Cr
        } else {
            LineEnding::Lf
        };
        let l = crate::edits::new_line(b.subrange(start, index), e, count + 1);
        lemma_scan_reproduces(b, index + 1, index + 1, count + 1);
        lemma_lines_bytes_prepend(l, scan_lines(b, index + 1, index + 1, count + 1));
        assert(line_bytes(l) + b.subrange(index + 1, b.len() as int) =~= b.subrange(
            start,
            b.len() as int,
        ));
    } else {
        lemma_scan_reproduces(b, start, index + 1, count);
    }
}

/// Parsing a file into lines and encoding it again gives back exactly the same bytes: the
/// byte-order mark, every terminator (`\r\n`, `\r`, `\n`) and a missing final newline survive.
pub proof fn lemma_parse_encode_round_trip(bytes: Seq<u8>)
    ensures
        encode_doc(parse_doc(bytes)) == bytes,
{
    let b = body(bytes);
    lemma_scan_reproduces(b, 0, 0, 0);
    assert(b.subrange(0, b.len() as int) =~= b);
    if has_bom(bytes) {
        assert(bom_bytes() + b =~= bytes);
    } else {
        assert(Seq::<u8>::empty() + b =~= bytes);
    }
}

/// A byte count capped at the largest `u64`.
pub open spec fn capped(n: int) -> int {
    if n > u64::MAX {
        u64::MAX as int
    } else {
        n
    }
}

proof fn lemma_encoded_len_prefix(d: DocView, n: int)
    requires
        0 <= n <= d.lines.len(),
    ensures
        encoded_len_prefix(d, n) == capped(
            (if d.bom {
                3int
            } else {
                0int
            }) + lines_bytes(d.lines.take(n)).len(),
        ),
    decreases n,
{
    if n > 0 {
        lemma_encoded_len_prefix(d, n - 1);
        assert(d.lines.take(n).drop_last() =~= d.lines.take(n - 1));
        assert(d.lines.take(n).last() == d.lines[n - 1]);
    } else {
        assert(d.lines.take(0) =~= Seq::<LineView>::empty());
    }
}

/// The byte count that `finish` checks against the output limit is the length of the encoded
/// document, capped at the largest `u64`.
pub proof fn lemma_encoded_len_is_length(d: DocView)
    ensures
        encoded_len(d) == capped(encode_doc(d).len() as int),
{
    lemma_encoded_len_prefix(d, d.lines.len() as int);
    assert(d.lines.take(d.lines.len() as int) =~= d.lines);
}

/// Parsing a file and finishing it unedited gives back exactly its bytes whenever their length,
/// counted as `finish` counts it (capped at the largest `u64`), fits the output limit, and
/// otherwise refuses with that count.
pub proof fn lemma_parse_finish_round_trip(bytes: Seq<u8>, limit: EditOutputLimit)
    ensures
        capped(bytes.len() as int) <= limit.max_bytes ==> finish_spec(parse_doc(bytes), limit) == Ok::<Seq<u8>, EditIssue>(
            bytes,
        ),
        capped(bytes.len() as int) > limit.max_bytes ==> finish_spec(parse_doc(bytes), limit) == Err::<Seq<u8>, EditIssue>(
            EditIssue::OutputLimit { observed: capped(bytes.len() as int) as u64, limit: limit.max_bytes },
        ),
{
    lemma_parse_encode_round_trip(bytes);
    lemma_encoded_len_is_length(parse_doc(bytes));
}

/// The hash that `line_hash` gives for a line is a well-formed anchor hash that matches that
/// line, so an anchor built from a line's current text is always accepted.
pub proof fn lemma_line_hash_is_accepted(text: Seq<u8>)
    ensures
        hash_well_formed(utf8(line_hash_chars(text))),
        hash_matches(utf8(line_hash_chars(text)), text),
{
    let chars = line_hash_chars(text);
    let v = line_hash_value(text);
    assert(0 <= v < 65536);
    let digits = seq![v / 4096, v / 256 % 16, v / 16 % 16, v % 16];
    assert forall|i: int| 0 <= i < 4 implies 0 <= #[trigger] digits[i] < 16 && chars[i]
        == hex_char_of(digits[i]) && (hex_char_of(digits[i]) as u8) as int == if digits[i] < 10 {
        48 + digits[i]
    } else {
        87 + digits[i]
    } by {}
    assert(vstd::utf8::is_ascii_chars(chars)) by {
        assert forall|i: int| 0 <= i < chars.len() implies '\0' <= #[trigger] chars[i] <= '\u{7f}' by {
            assert(0 <= digits[i] < 16);
        }
    }
    vstd::utf8::is_ascii_chars_encode_utf8(chars);
    let h = utf8(chars);
    assert forall|i: int| 0 <= i < 4 implies #[trigger] is_hex_byte(h[i]) && lower_byte(h[i])
        == chars[i] as u8 by {
        assert(h[i] == chars[i] as u8);
        assert(0 <= digits[i] < 16);
    }
}

/// The line hash shown for a text is its seed-0 xxHash32's low 16 bits, written as four
/// lower-case hexadecimal digits, most significant first.
pub proof fn lemma_line_hash_is_low_half_of_xxh32(text: Seq<u8>)
    ensures
        line_hash_chars(text).len() == 4,
        line_hash_chars(text)[0] == hex_char_of(((xxh32(text, 0) & 0xffffu32) >> 12u32) as int),
        line_hash_chars(text)[1] == hex_char_of((((xxh32(text, 0) & 0xffffu32) >> 8u32) & 0xfu32) as int),
        line_hash_chars(text)[2] == hex_char_of((((xxh32(text, 0) & 0xffffu32) >> 4u32) & 0xfu32) as int),
        line_hash_chars(text)[3] == hex_char_of(((xxh32(text, 0) & 0xffffu32) & 0xfu32) as int),
{
    let x = xxh32(text, 0);
    assert((x % 65536) / 4096 == (x & 0xffff) >> 12) by (bit_vector);
    assert((x % 65536) / 256 % 16 == ((x & 0xffff) >> 8) & 0xf) by (bit_vector);
    assert((x % 65536) / 16 % 16 == ((x & 0xffff) >> 4) & 0xf) by (bit_vector);
    assert((x % 65536) % 16 == (x & 0xffff) & 0xf) by (bit_vector);
    assert(line_hash_value(text) == (x % 65536) as int);
}

/// The line at position `p` of the document came from original line `line`.
proof fn lemma_found_line(lines: Seq<LineView>, line: u64, from: int)
    requires
        find_line(lines, line, from) is Some,
    ensures
        from <= find_line(lines, line, from)->0 < lines.len(),
        lines[find_line(lines, line, from)->0].original_line == Some(line),
    decreases lines.len() - from,
{
    if !(from < 0 || from >= lines.len()) && lines[from].original_line != Some(line) {
        lemma_found_line(lines, line, from + 1);
    }
}

/// Replacing the lines from the one anchored at the range's start through the one anchored at
/// its end puts the replacement texts in their place, keeps every other line, and gives the
/// replacement's last line the terminator of the range's last line; so replacing a file's final
/// unterminated line leaves the file without a final newline.
pub proof fn lemma_replacement_keeps_the_range_terminator(d: DocView, range: LineRange, texts: Seq<Seq<u8>>)
    requires
        replace_spec(d, range, texts) is Ok,
        texts.len() > 0,
    ensures
        exists|s: int, e: int|
            #![trigger d.lines[s], d.lines[e]]
            {
                let after = replace_spec(d, range, texts)->Ok_0.lines;
                &&& 0 <= s <= e < d.lines.len()
                &&& d.lines[s].original_line == Some(range.start.line)
                &&& d.lines[e].original_line == Some(range.end.line)
                &&& after.len() == d.lines.len() - (e - s + 1) + texts.len()
                &&& after.take(s) == d.lines.take(s)
                &&& after.skip(s + texts.len()) == d.lines.skip(e + 1)
                &&& forall|k: int| 0 <= k < texts.len() ==> #[trigger] after[s + k].text == texts[k]
                &&& after[s + texts.len() - 1].ending == d.lines[e].ending
                &&& forall|k: int| 0 <= k < texts.len() - 1 ==> #[trigger] after[s + k].ending == d.fallback
                &&& (e == d.lines.len() - 1 ==> after.last().ending == d.lines.last().ending)
            },
{
    let s = anchor_position(d, range.start)->Ok_0;
    let e = anchor_position(d, range.end)->Ok_0;
    lemma_found_line(d.lines, range.start.line, 0);
    lemma_found_line(d.lines, range.end.line, 0);
    let after = replace_spec(d, range, texts)->Ok_0.lines;
    let replacement = new_lines(texts, d.lines[e].ending, d.fallback, true, None)->Ok_0;
    assert(after == splice(d.lines, s, e + 1, replacement));
    assert(after.take(s) =~= d.lines.take(s));
    assert(after.skip(s + texts.len()) =~= d.lines.skip(e + 1));
    assert forall|k: int| 0 <= k < texts.len() implies #[trigger] after[s + k].text == texts[k] by {
        assert(after[s + k] == replacement[k]);
    }
    assert forall|k: int| 0 <= k < texts.len() - 1 implies #[trigger] after[s + k].ending == d.fallback by {
        assert(after[s + k] == replacement[k]);
    }
    assert(after[s + texts.len() - 1] == replacement[texts.len() - 1]);
}

proof fn lemma_skip_inserted_within(lines: Seq<LineView>, n: u64, i: int)
    requires
        0 <= i <= lines.len(),
    ensures
        i <= skip_inserted(lines, n, i) <= lines.len(),
    decreases lines.len() - i,
{
    if 0 <= i < lines.len() && lines[i].inserted_after == Some(n) {
        lemma_skip_inserted_within(lines, n, i + 1);
    }
}

/// Whether a document ends with a terminated line.
pub open spec fn ends_terminated(lines: Seq<LineView>) -> bool {
    lines.len() > 0 && lines.last().ending != LineEnding::Unterminated
}

/// Inserting lines, or replacing lines with at least one, keeps whether the file ends with a
/// newline: a file without a final newline stays without one, and one with a final newline
/// keeps one.
pub proof fn lemma_edits_keep_the_final_newline(d: DocView, edit: FileEdit)
    requires
        d.lines.len() > 0,
        d.fallback != LineEnding::Unterminated,
        apply_spec(d, edit) is Ok,
        edit matches FileEdit::ReplaceLines { lines, .. } ==> lines@.len() > 0,
    ensures
        ends_terminated(apply_spec(d, edit)->Ok_0.lines) == ends_terminated(d.lines),
{
    reveal(apply_spec);
    match edit {
        FileEdit::ReplaceLines { range, lines } => {
            let texts = texts_of(lines@);
            lemma_replacement_keeps_the_range_terminator(d, range, texts);
            let after = replace_spec(d, range, texts)->Ok_0.lines;
            let s = anchor_position(d, range.start)->Ok_0;
            let e = anchor_position(d, range.end)->Ok_0;
            lemma_found_line(d.lines, range.start.line, 0);
            lemma_found_line(d.lines, range.end.line, 0);
            let replacement = new_lines(texts, d.lines[e].ending, d.fallback, true, None)->Ok_0;
            assert(after == splice(d.lines, s, e + 1, replacement));
            if e + 1 < d.lines.len() {
                assert(after.last() == d.lines.last());
            } else {
                assert(after.last() == replacement.last());
            }
        },
        FileEdit::InsertBefore { anchor, lines } => {
            let texts = texts_of(lines@);
            let index = anchor_position(d, anchor)->Ok_0;
            lemma_found_line(d.lines, anchor.line, 0);
            let inserted = new_lines(texts, d.fallback, d.fallback, false, None)->Ok_0;
            let after = insert_before_spec(d, anchor, texts)->Ok_0.lines;
            assert(after == splice(d.lines, index, index, inserted));
            assert(after.last() == d.lines.last());
        },
        FileEdit::InsertAfter { anchor, lines } => {
            let texts = texts_of(lines@);
            let index = anchor_position(d, anchor)->Ok_0;
            lemma_found_line(d.lines, anchor.line, 0);
            let at = skip_inserted(d.lines, anchor.line, index + 1);
            lemma_skip_inserted_within(d.lines, anchor.line, index + 1);
            let before = d.lines[at - 1];
            let unterminated = before.ending == LineEnding::Unterminated;
            let updated = if unterminated {
                d.lines.update(at - 1, LineView { ending: d.fallback, ..before })
            } else {
                d.lines
            };
            let final_ending = if unterminated {
                LineEnding::Unterminated
            } else {
                d.fallback
            };
            let inserted = new_lines(texts, final_ending, d.fallback, true, Some(anchor.line))->Ok_0;
            let after = insert_after_spec(d, anchor, texts)->Ok_0.lines;
            assert(after == splice(updated, at, at, inserted));
            if at < d.lines.len() {
                assert(after.last() == d.lines.last());
            } else {
                assert(after.last() == inserted.last());
            }
        },
        FileEdit::ReplaceAll { .. } => {},
    }
}

} // verus!
