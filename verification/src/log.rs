//! The log of one day as it stands in memory: the bytes of its file, the one
//! change that is ever made to them (appending a line), and the listing.

use crate::lines::{
    entries, has_line_feed, is_terminated, lemma_entries_after_line, lemma_entries_concat,
    lemma_entries_of_open_line, lemma_entries_of_record, line_text, record, shown, NEWLINE,
};
use crate::text::texts;
use vstd::prelude::*;
use vstd::slice::slice_subrange;
use vstd::string::StringSliceAdditionalSpecFns;
use vstd::utf8::{decode_utf8, valid_utf8};

verus! {

/// The marker that a listing puts before each entry.
pub open spec fn entry_marker() -> Seq<char> {
    seq!['-', ' ']
}

/// `core::str::from_utf8`, which checks that the bytes are valid UTF-8 and,
/// where they are, hands them back as a string slice; its error is dropped.
/// Trusted: that it accepts exactly the byte strings that `valid_utf8`
/// describes, and that the slice spells the characters they decode to.
#[verifier::external_body]
fn text_of(bytes: &[u8]) -> (r: Option<&str>)
    ensures
        r is Some <==> valid_utf8(bytes@),
        r matches Some(text) ==> text@ == decode_utf8(bytes@),
{
    core::str::from_utf8(bytes).ok()
}

/// Adds to `out` what the raw line `raw` shows in a listing: its text, unless
/// the bytes are unreadable or the line is empty.
fn keep_line(out: &mut Vec<String>, raw: &[u8])
    ensures
        texts(final(out)@) == texts(old(out)@) + shown(raw@),
{
    let text: &str = text_of(raw).unwrap_or("");
    proof {
        reveal_strlit("");
        assert(text@ == line_text(raw@));
    }
    if !text.is_empty() {
        out.push(text.to_owned());
        assert(texts(out@) =~= texts(old(out)@) + shown(raw@));
    } else {
        assert(texts(out@) =~= texts(old(out)@) + shown(raw@));
    }
}

/// The bytes that recording `text` writes to the end of the day's file: the
/// message as it was given and one newline. An empty message is skipped: it
/// writes nothing, not even a blank line.
pub fn record_for(text: &str) -> (bytes: Vec<u8>)
    ensures
        bytes@ == record(text@),
{
    if text.is_empty() {
        Vec::new()
    } else {
        let mut bytes: Vec<u8> = text.as_bytes_vec();
        bytes.push(NEWLINE);
        bytes
    }
}

/// One entry as a listing prints it: the marker `"- "`, then the entry.
pub fn display_line(entry: &str) -> (line: String)
    ensures
        line@ == entry_marker() + entry@,
{
    proof {
        reveal_strlit("- ");
        assert("- "@ =~= entry_marker());
    }
    String::from_str("- ").concat(entry)
}

/// The file of one day, held as its bytes. Any bytes are a log: the file may
/// have been written by other hands.
pub struct DayLog {
    bytes: Vec<u8>,
}

impl View for DayLog {
    type V = Seq<u8>;

    closed spec fn view(&self) -> Seq<u8> {
        self.bytes@
    }
}

impl DayLog {
    /// The log of a day on which nothing was recorded yet: an empty file.
    pub fn new() -> (log: DayLog)
        ensures
            log@ == Seq::<u8>::empty(),
    {
        DayLog { bytes: Vec::new() }
    }

    /// The log whose file holds `bytes`.
    pub fn from_bytes(bytes: Vec<u8>) -> (log: DayLog)
        ensures
            log@ == bytes@,
    {
        DayLog { bytes }
    }

    /// The bytes of the file.
    pub fn as_bytes(&self) -> (bytes: &[u8])
        ensures
            bytes@ == self@,
    {
        self.bytes.as_slice()
    }

    /// The entries that a listing of this log shows.
    pub open spec fn entries(&self) -> Seq<Seq<char>> {
        entries(self@)
    }

    /// Records `text`: its record goes to the end of the log, and nothing
    /// that was there changes. The empty message leaves the log as it was.
    pub fn append_line(&mut self, text: &str)
        ensures
            final(self)@ == old(self)@ + record(text@),
    {
        let mut tail: Vec<u8> = record_for(text);
        self.bytes.append(&mut tail);
    }

    /// Lists the log: every line whose text is not empty, in file order. A
    /// line that is not valid UTF-8 counts as empty and is left out; the
    /// lines around it are listed all the same.
    pub fn list_nonempty_lines(&self) -> (out: Vec<String>)
        ensures
            texts(out@) == self.entries(),
    {
        let bytes: &[u8] = self.bytes.as_slice();
        let end: usize = bytes.len();
        let mut out: Vec<String> = Vec::new();
        let mut start: usize = 0;
        let mut at: usize = 0;
        assert(bytes@.skip(0) =~= bytes@);
        assert(texts(out@) + entries(bytes@) =~= entries(bytes@));
        while at < end
            invariant
                end == bytes@.len(),
                start <= at <= end,
                forall|k: int| start <= k < at ==> bytes@[k] != NEWLINE,
                entries(bytes@) == texts(out@) + entries(bytes@.skip(start as int)),
            decreases end - at,
        {
            if bytes[at] == NEWLINE {
                let raw: &[u8] = slice_subrange(bytes, start, at);
                proof {
                    let rest = bytes@.skip(start as int);
                    lemma_entries_after_line(rest, at - start);
                    assert(rest.take(at - start) =~= raw@);
                    assert(rest.skip(at - start + 1) =~= bytes@.skip(at + 1));
                }
                let ghost before = texts(out@);
                keep_line(&mut out, raw);
                assert(entries(bytes@) =~= texts(out@) + entries(bytes@.skip(at + 1))) by {
                    assert((before + shown(raw@)) + entries(bytes@.skip(at + 1)) =~= before + (
                    shown(raw@) + entries(bytes@.skip(at + 1))));
                }
                start = at + 1;
            }
            at = at + 1;
        }
        let raw: &[u8] = slice_subrange(bytes, start, end);
        proof {
            assert(bytes@.skip(start as int) =~= raw@);
            lemma_entries_of_open_line(raw@);
        }
        keep_line(&mut out, raw);
        out
    }
}

/// Recording a message and listing again shows what was listed before and
/// then the message, once, last, and as it was given. This holds of every
/// message that is not empty and has no line feed in it, recorded in a log
/// that ends on a line boundary.
pub proof fn lemma_append_then_list(log: Seq<u8>, text: Seq<char>)
    requires
        is_terminated(log),
        text.len() > 0,
        !has_line_feed(text),
    ensures
        entries(log + record(text)) == entries(log).push(text),
{
    lemma_entries_concat(log, record(text));
    lemma_entries_of_record(text);
    assert(entries(log) + seq![text] =~= entries(log).push(text));
}

/// Nothing that was recorded is lost, changed or moved by recording more:
/// whatever the message, a log that ends on a line boundary lists after the
/// append what it listed before, and then what the record alone lists.
pub proof fn lemma_append_keeps_earlier_entries(log: Seq<u8>, text: Seq<char>)
    requires
        is_terminated(log),
    ensures
        entries(log + record(text)) == entries(log) + entries(record(text)),
        entries(log + record(text)).take(entries(log).len() as int) == entries(log),
{
    lemma_entries_concat(log, record(text));
    assert((entries(log) + entries(record(text))).take(entries(log).len() as int) =~= entries(
        log,
    ));
}

/// Recording the empty message changes nothing: the log, and so its
/// listing, is what it was before.
pub proof fn lemma_empty_message_is_skipped(log: Seq<u8>, text: Seq<char>)
    requires
        text.len() == 0,
    ensures
        log + record(text) == log,
        entries(log + record(text)) == entries(log),
{
    assert(log + record(text) =~= log);
}

/// Listing reads the log and changes nothing: two listings of one log, with
/// no append between them, show the same entries in the same order.
pub proof fn lemma_listing_is_repeatable(log: DayLog, first: Seq<String>, second: Seq<String>)
    requires
        texts(first) == log.entries(),
        texts(second) == log.entries(),
    ensures
        texts(first) == texts(second),
{
}

/// A log stays on a line boundary through every append.
pub proof fn lemma_append_keeps_line_boundary(log: Seq<u8>, text: Seq<char>)
    requires
        is_terminated(log),
    ensures
        is_terminated(log + record(text)),
{
    if text.len() == 0 {
        assert(log + record(text) =~= log);
    } else {
        assert((log + record(text)).last() == NEWLINE);
    }
}

} // verus!
