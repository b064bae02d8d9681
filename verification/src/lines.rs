//! The line format of a daily log, as mathematics: how the bytes of a file
//! split into lines, which of them a listing shows, and what an appended
//! message adds.

use vstd::prelude::*;
use vstd::utf8::*;

verus! {

/// The byte that ends every record of a daily log.
pub const NEWLINE: u8 = 10u8;

/// The number of bytes before the first newline of `bytes`; the whole length
/// where there is no newline.
pub open spec fn first_newline(bytes: Seq<u8>) -> nat
    decreases bytes.len(),
{
    if bytes.len() == 0 || bytes[0] == NEWLINE {
        0
    } else {
        1 + first_newline(bytes.drop_first())
    }
}

/// The text of one raw line (the bytes between two newlines). Bytes that are
/// not valid UTF-8 read as the empty text.
pub open spec fn line_text(raw: Seq<u8>) -> Seq<char> {
    if valid_utf8(raw) {
        decode_utf8(raw)
    } else {
        Seq::empty()
    }
}

/// What one raw line contributes to a listing: its text, unless that is
/// empty.
pub open spec fn shown(raw: Seq<u8>) -> Seq<Seq<char>> {
    if line_text(raw).len() > 0 {
        seq![line_text(raw)]
    } else {
        Seq::empty()
    }
}

/// The listing of a log: its lines from the beginning, each cut at its
/// newline, in file order, without those whose text is empty. A last line
/// that no newline ends is a line like the others. Only the newline ends a
/// line: a carriage return before it belongs to the text.
pub open spec fn entries(bytes: Seq<u8>) -> Seq<Seq<char>>
    decreases bytes.len(),
{
    let n = first_newline(bytes) as int;
    if n < bytes.len() {
        shown(bytes.take(n)) + entries(bytes.skip(n + 1))
    } else {
        shown(bytes)
    }
}

/// What appending `text` writes: the text as UTF-8, as it was given, and one
/// newline. The empty message writes nothing; a message of blanks is a
/// message like any other.
pub open spec fn record(text: Seq<char>) -> Seq<u8> {
    if text.len() == 0 {
        Seq::empty()
    } else {
        encode_utf8(text).push(NEWLINE)
    }
}

/// Whether `bytes` is empty or ends with a newline, so that whatever is
/// appended next starts a line of its own.
pub open spec fn is_terminated(bytes: Seq<u8>) -> bool {
    bytes.len() == 0 || bytes.last() == NEWLINE
}

/// Whether `text` holds a line feed.
pub open spec fn has_line_feed(text: Seq<char>) -> bool {
    exists|i: int| 0 <= i < text.len() && text[i] == '\n'
}

/// `first_newline` is the one position that no newline precedes and that
/// holds a newline or is the end.
pub proof fn lemma_first_newline(bytes: Seq<u8>)
    ensures
        first_newline(bytes) <= bytes.len(),
        forall|k: int| 0 <= k < first_newline(bytes) ==> bytes[k] != NEWLINE,
        first_newline(bytes) < bytes.len() ==> bytes[first_newline(bytes) as int] == NEWLINE,
    decreases bytes.len(),
{
    if bytes.len() == 0 || bytes[0] == NEWLINE {
    } else {
        let rest = bytes.drop_first();
        lemma_first_newline(rest);
        assert forall|k: int| 0 <= k < first_newline(bytes) implies bytes[k] != NEWLINE by {
            if k > 0 {
                assert(bytes[k] == rest[k - 1]);
            }
        }
        assert(first_newline(bytes) < bytes.len() ==> bytes[first_newline(bytes) as int]
            == rest[first_newline(rest) as int]);
    }
}

/// A position that no newline precedes and that holds a newline or is the end
/// is `first_newline`.
pub proof fn lemma_first_newline_at(bytes: Seq<u8>, at: int)
    requires
        0 <= at <= bytes.len(),
        forall|k: int| 0 <= k < at ==> bytes[k] != NEWLINE,
        at < bytes.len() ==> bytes[at] == NEWLINE,
    ensures
        first_newline(bytes) == at,
{
    lemma_first_newline(bytes);
    let n = first_newline(bytes) as int;
    if n < at {
        assert(bytes[n] == NEWLINE);
    } else if at < n {
        assert(bytes[at] != NEWLINE);
    }
}

/// A log that is only one line without its newline lists that line.
pub proof fn lemma_entries_of_open_line(raw: Seq<u8>)
    requires
        forall|k: int| 0 <= k < raw.len() ==> raw[k] != NEWLINE,
    ensures
        entries(raw) == shown(raw),
{
    lemma_first_newline_at(raw, raw.len() as int);
}

/// A log that starts with a whole line lists that line, then the rest.
pub proof fn lemma_entries_after_line(bytes: Seq<u8>, at: int)
    requires
        0 <= at < bytes.len(),
        forall|k: int| 0 <= k < at ==> bytes[k] != NEWLINE,
        bytes[at] == NEWLINE,
    ensures
        entries(bytes) == shown(bytes.take(at)) + entries(bytes.skip(at + 1)),
{
    lemma_first_newline_at(bytes, at);
}

/// Listing goes line by line: behind a log that ends on a line boundary,
/// further bytes list as they would alone.
pub proof fn lemma_entries_concat(head: Seq<u8>, tail: Seq<u8>)
    requires
        is_terminated(head),
    ensures
        entries(head + tail) == entries(head) + entries(tail),
    decreases head.len(),
{
    if head.len() == 0 {
        assert(head + tail =~= tail);
        lemma_first_newline(head);
        assert(shown(head) =~= Seq::<Seq<char>>::empty());
        assert(entries(head) + entries(tail) =~= entries(tail));
    } else {
        lemma_first_newline(head);
        let n = first_newline(head) as int;
        if n == head.len() {
            assert(head[n - 1] != NEWLINE);
        }
        let whole = head + tail;
        assert forall|k: int| 0 <= k < n implies whole[k] != NEWLINE by {
            assert(whole[k] == head[k]);
        }
        assert(whole[n] == head[n]);
        lemma_entries_after_line(whole, n);
        lemma_entries_after_line(head, n);
        let rest = head.skip(n + 1);
        assert(whole.take(n) =~= head.take(n));
        assert(whole.skip(n + 1) =~= rest + tail);
        if rest.len() > 0 {
            assert(rest.last() == head.last());
        }
        lemma_entries_concat(rest, tail);
        assert(entries(whole) =~= entries(head) + entries(tail));
    }
}

/// No entry of a listing is empty.
pub proof fn lemma_entries_are_not_empty(bytes: Seq<u8>)
    ensures
        forall|k: int| 0 <= k < entries(bytes).len() ==> (#[trigger] entries(bytes)[k]).len() > 0,
    decreases bytes.len(),
{
    lemma_first_newline(bytes);
    let n = first_newline(bytes) as int;
    if n < bytes.len() {
        let line = shown(bytes.take(n));
        let rest = entries(bytes.skip(n + 1));
        lemma_entries_are_not_empty(bytes.skip(n + 1));
        assert forall|k: int| 0 <= k < entries(bytes).len() implies (#[trigger] entries(
            bytes,
        )[k]).len() > 0 by {
            if k < line.len() {
                assert(entries(bytes)[k] == line[k]);
            } else {
                assert(entries(bytes)[k] == rest[k - line.len()]);
            }
        }
    }
}

/// No byte of the UTF-8 form of a text without a line feed is a newline.
pub proof fn lemma_encoding_has_no_newline(text: Seq<char>)
    requires
        !has_line_feed(text),
    ensures
        forall|k: int| 0 <= k < encode_utf8(text).len() ==> encode_utf8(text)[k] != NEWLINE,
    decreases text.len(),
{
    if text.len() > 0 {
        let first = text[0] as u32;
        let rest = text.drop_first();
        assert(text[0] != '\n');
        assert forall|i: int| 0 <= i < rest.len() implies rest[i] != '\n' by {
            assert(rest[i] == text[i + 1]);
        }
        lemma_encoding_has_no_newline(rest);
        assert(first != 10) by {
            if first == 10 {
                char_u32_cast(text[0], first);
                char_u32_cast('\n', first);
            }
        }
        lemma_scalar_has_no_newline(first);
        let head = encode_scalar(first);
        assert forall|k: int| 0 <= k < encode_utf8(text).len() implies encode_utf8(text)[k]
            != NEWLINE by {
            if k < head.len() {
                assert(encode_utf8(text)[k] == head[k]);
            } else {
                assert(encode_utf8(text)[k] == encode_utf8(rest)[k - head.len()]);
            }
        }
    }
}

/// The UTF-8 form of one character other than the line feed holds no
/// newline: a byte below 128 stands for itself, and every byte of a longer
/// form is 128 or more.
proof fn lemma_scalar_has_no_newline(scalar: u32)
    requires
        scalar != 10,
    ensures
        forall|k: int| 0 <= k < encode_scalar(scalar).len() ==> encode_scalar(scalar)[k] != NEWLINE,
{
    assert(scalar <= 0x7F ==> (scalar & 0x7F) as u8 != 10u8) by (bit_vector)
        requires
            scalar != 10,
    ;
    assert((0xC0u8 | ((scalar >> 6) & 0x1F) as u8) != 10u8) by (bit_vector);
    assert((0xE0u8 | ((scalar >> 12) & 0x0F) as u8) != 10u8) by (bit_vector);
    assert((0xF0u8 | ((scalar >> 18) & 0x7) as u8) != 10u8) by (bit_vector);
    assert((0x80u8 | (scalar & 0x3F) as u8) != 10u8) by (bit_vector);
    assert((0x80u8 | ((scalar >> 6) & 0x3F) as u8) != 10u8) by (bit_vector);
    assert((0x80u8 | ((scalar >> 12) & 0x3F) as u8) != 10u8) by (bit_vector);
}

/// The record of a message without a line feed is one whole line: listed
/// alone, it shows the message, once and as it was given.
pub proof fn lemma_entries_of_record(text: Seq<char>)
    requires
        text.len() > 0,
        !has_line_feed(text),
    ensures
        entries(record(text)) == seq![text],
{
    let raw = encode_utf8(text);
    let line = record(text);
    lemma_encoding_has_no_newline(text);
    encode_utf8_valid_utf8(text);
    encode_utf8_decode_utf8(text);
    assert(line.take(raw.len() as int) =~= raw);
    assert(line.skip(raw.len() as int + 1) =~= Seq::<u8>::empty());
    assert forall|k: int| 0 <= k < raw.len() implies line[k] != NEWLINE by {
        assert(line[k] == raw[k]);
    }
    lemma_entries_after_line(line, raw.len() as int);
    lemma_first_newline(Seq::<u8>::empty());
    assert(entries(Seq::<u8>::empty()) =~= Seq::<Seq<char>>::empty());
    assert(shown(raw) =~= seq![text]);
    assert(entries(line) =~= seq![text]);
}

} // verus!
