//! NDJSON framing: one JSON value per newline-terminated line. The byte-level
//! framing is verified here; reading and writing the stream itself is left to
//! the runtime that owns the connection.
use vstd::prelude::*;
use crate::json::{json_encode, json_from_bytes, json_is_null, json_null, json_parse, json_to_bytes, null_text};

verus! {

/// The newline byte.
pub const NEWLINE: u8 = 10;

/// `u8::is_ascii_whitespace`: space, tab, line feed, form feed, carriage return.
pub open spec fn is_ascii_ws(b: u8) -> bool {
    b == 32 || b == 9 || b == 10 || b == 12 || b == 13
}

/// `i` is the index of the first newline in `b`.
pub open spec fn first_newline(b: Seq<u8>, i: int) -> bool {
    0 <= i < b.len() && b[i] == NEWLINE && forall|j: int| 0 <= j < i ==> b[j] != NEWLINE
}

/// `b` contains a newline.
pub open spec fn has_newline(b: Seq<u8>) -> bool {
    exists|i: int| 0 <= i < b.len() && b[i] == NEWLINE
}

/// The complete frame at the front of `b` (up to and including the first
/// newline) and the bytes after it, when `b` holds a complete frame.
pub open spec fn frame_split(b: Seq<u8>) -> Option<(Seq<u8>, Seq<u8>)> {
    if exists|i: int| first_newline(b, i) {
        let i = choose|i: int| first_newline(b, i);
        Some((b.take(i + 1), b.skip(i + 1)))
    } else {
        None
    }
}

/// Every byte of `line` is ASCII whitespace (a blank keep-alive line).
pub open spec fn is_blank(line: Seq<u8>) -> bool {
    forall|j: int| 0 <= j < line.len() ==> is_ascii_ws(#[trigger] line[j])
}

/// The value a complete frame `line` decodes to: `null` for a blank line,
/// else the JSON the line parses to (`None` when it does not parse).
pub open spec fn frame_value(line: Seq<u8>) -> Option<serde_json::Value> {
    if is_blank(line) {
        json_from_bytes(null_text())
    } else {
        json_from_bytes(line)
    }
}

/// A buffer holds a complete frame exactly when it contains a newline.
pub proof fn lemma_frame_split_some(b: Seq<u8>)
    ensures
        frame_split(b) is Some <==> has_newline(b),
{
    if has_newline(b) {
        let k = choose|k: int| 0 <= k < b.len() && b[k] == NEWLINE;
        lemma_first_newline_exists(b, k);
    }
}

/// If `b[k]` is a newline, some index at or before `k` is the first newline.
pub proof fn lemma_first_newline_exists(b: Seq<u8>, k: int)
    requires
        0 <= k < b.len(),
        b[k] == NEWLINE,
    ensures
        exists|i: int| first_newline(b, i) && i <= k,
    decreases k,
{
    if exists|j: int| 0 <= j < k && b[j] == NEWLINE {
        let j = choose|j: int| 0 <= j < k && b[j] == NEWLINE;
        lemma_first_newline_exists(b, j);
    } else {
        assert(first_newline(b, k));
    }
}

/// The first newline of a buffer is unique.
pub proof fn lemma_first_newline_unique(b: Seq<u8>, i: int, k: int)
    requires
        first_newline(b, i),
        first_newline(b, k),
    ensures
        i == k,
{
    if i < k {
        assert(b[i] != NEWLINE);
    } else if k < i {
        assert(b[k] != NEWLINE);
    }
}

/// Why reading a frame failed.
#[derive(Debug)]
pub enum FrameError {
    /// A complete frame whose bytes are not one JSON text.
    Malformed(serde_json::Error),
    /// The peer closed the stream while a frame was only partly received.
    ClosedMidFrame,
}

/// Remove the first complete frame (through the first newline) from the
/// front of `rd_buf` and return it; `None`, with nothing consumed, when the
/// buffer holds no newline.
fn split_frame(rd_buf: &mut Vec<u8>) -> (r: Option<Vec<u8>>)
    ensures
        match frame_split(old(rd_buf)@) {
            None => r is None && final(rd_buf)@ == old(rd_buf)@,
            Some((line, rest)) => r matches Some(l) && l@ == line && final(rd_buf)@ == rest,
        },
{
    let ghost b = rd_buf@;
    let mut pos: usize = 0;
    while pos < rd_buf.len() && rd_buf[pos] != NEWLINE
        invariant
            rd_buf@ == b,
            pos <= b.len(),
            forall|j: int| 0 <= j < pos ==> b[j] != NEWLINE,
        decreases b.len() - pos,
    {
        pos = pos + 1;
    }
    if pos == rd_buf.len() {
        proof {
            if exists|i: int| first_newline(b, i) {
                let i = choose|i: int| first_newline(b, i);
                assert(b[i] != NEWLINE);
            }
        }
        return None;
    }
    proof {
        assert(first_newline(b, pos as int));
        let i = choose|i: int| first_newline(b, i);
        lemma_first_newline_unique(b, i, pos as int);
    }
    let mut line = rd_buf.split_off(pos + 1);
    std::mem::swap(&mut line, rd_buf);
    assert(line@ =~= b.take(pos + 1));
    assert(rd_buf@ =~= b.skip(pos + 1));
    Some(line)
}

/// Whether every byte of `line` is ASCII whitespace.
fn line_is_blank(line: &[u8]) -> (r: bool)
    ensures
        r == is_blank(line@),
{
    let mut j: usize = 0;
    while j < line.len()
        invariant
            j <= line@.len(),
            forall|k: int| 0 <= k < j ==> is_ascii_ws(#[trigger] line@[k]),
        decreases line@.len() - j,
    {
        let c = line[j];
        if !(c == 32 || c == 9 || c == 10 || c == 12 || c == 13) {
            assert(!is_ascii_ws(line@[j as int]));
            return false;
        }
        j = j + 1;
    }
    true
}

/// Try to pull one complete NDJSON frame out of `rd_buf`.
///
/// Without a newline in the buffer nothing is consumed and `None` comes
/// back. Otherwise the frame (through the first newline) is removed from the
/// front of the buffer: a blank frame yields `Ok(null)`, a frame that parses
/// yields `Ok` of its value, and one that does not yields a `Malformed`
/// error.
pub fn take_frame(rd_buf: &mut Vec<u8>) -> (r: Option<Result<serde_json::Value, FrameError>>)
    ensures
        match frame_split(old(rd_buf)@) {
            None => r is None && final(rd_buf)@ == old(rd_buf)@,
            Some((line, rest)) => {
                &&& final(rd_buf)@ == rest
                &&& match r {
                    Some(Ok(v)) => frame_value(line) == Some(v),
                    Some(Err(e)) => frame_value(line) is None && e is Malformed,
                    None => false,
                }
            },
        },
{
    match split_frame(rd_buf) {
        None => None,
        Some(line) => {
            if line_is_blank(line.as_slice()) {
                return Some(Ok(json_null()));
            }
            match json_parse(line.as_slice()) {
                Ok(v) => Some(Ok(v)),
                Err(e) => Some(Err(FrameError::Malformed(e))),
            }
        },
    }
}

/// Encode one message as an NDJSON frame: its JSON bytes followed by a
/// newline.
///
/// A frame reads back as the message it carries: whatever follows it in the
/// buffer, the next message read is `msg` and exactly the frame is consumed —
/// for a message that is not `null` (those are skipped on reading) and
/// whose JSON text parses back to it.
pub fn encode_frame(msg: &serde_json::Value) -> (r: Result<Vec<u8>, serde_json::Error>)
    ensures
        match r {
            Ok(b) => json_to_bytes(*msg) matches Some(t) && b@ == t.push(NEWLINE),
            Err(_) => json_to_bytes(*msg) is None,
        },
        r matches Ok(b) ==> (json_from_bytes(b@.drop_last()) == Some(*msg) && json_from_bytes(null_text()) != Some(
            *msg,
        ) ==> forall|rest: Seq<u8>| #[trigger] spec_next_message(b@ + rest) == (Some(Some(*msg)), rest)),
{
    match json_encode(msg) {
        Ok(mut data) => {
            proof {
                if json_from_bytes(data@) == Some(*msg) && json_from_bytes(null_text()) != Some(*msg) {
                    assert forall|rest: Seq<u8>| #[trigger] spec_next_message(data@.push(NEWLINE) + rest) == (
                        Some(Some(*msg)),
                        rest,
                    ) by {
                        lemma_frame_reads_back(data@, rest, *msg);
                    }
                }
                assert(data@.push(NEWLINE).drop_last() =~= data@);
            }
            data.push(NEWLINE);
            Ok(data)
        },
        Err(e) => Err(e),
    }
}

/// What reading the next message out of buffer `b` yields, and the buffer
/// left: no message while no complete frame is buffered; else frames are
/// consumed one by one, blank and `null` frames skipped, up to the first
/// other frame, whose value comes out (`Some(None)` when it does not parse).
pub open spec fn spec_next_message(b: Seq<u8>) -> (Option<Option<serde_json::Value>>, Seq<u8>)
    decreases b.len(),
{
    match frame_split(b) {
        None => (None, b),
        Some((line, rest)) => {
            if rest.len() < b.len() {
                match frame_value(line) {
                    Some(v) => if json_from_bytes(null_text()) == Some(v) {
                        spec_next_message(rest)
                    } else {
                        (Some(Some(v)), rest)
                    },
                    None => (Some(None), rest),
                }
            } else {
                (None, b)
            }
        },
    }
}

/// What reading the next value out of buffer `b` yields when only blank
/// frames are skipped: no value while no complete non-blank frame is
/// buffered; else the value of the first non-blank frame (`Some(None)` when
/// it does not parse), with everything through it consumed.
pub open spec fn spec_next_value(b: Seq<u8>) -> (Option<Option<serde_json::Value>>, Seq<u8>)
    decreases b.len(),
{
    match frame_split(b) {
        None => (None, b),
        Some((line, rest)) => {
            if rest.len() < b.len() {
                if is_blank(line) {
                    spec_next_value(rest)
                } else {
                    (Some(json_from_bytes(line)), rest)
                }
            } else {
                (None, b)
            }
        },
    }
}

/// A complete frame is never empty, so consuming it shrinks the buffer.
pub proof fn lemma_frame_split_shrinks(b: Seq<u8>)
    ensures
        frame_split(b) matches Some((line, rest)) ==> rest.len() < b.len() && line + rest == b,
{
    if exists|i: int| first_newline(b, i) {
        let i = choose|i: int| first_newline(b, i);
        assert(b.take(i + 1) + b.skip(i + 1) =~= b);
    }
}

/// A frame made of newline-free JSON text `t` (not starting with whitespace)
/// and a newline, followed by `rest`, reads back as `v` when `t` with the
/// newline parses to `v` and `v` is not `null`, leaving `rest`.
proof fn lemma_frame_reads_back(t: Seq<u8>, rest: Seq<u8>, v: serde_json::Value)
    requires
        !t.contains(NEWLINE),
        t.len() > 0 && !is_ascii_ws(t[0]),
        json_from_bytes(t.push(NEWLINE)) == Some(v),
        json_from_bytes(null_text()) != Some(v),
    ensures
        spec_next_message(t.push(NEWLINE) + rest) == (Some(Some(v)), rest),
{
    let b = t.push(NEWLINE) + rest;
    let n = t.len() as int;
    assert(b[n] == NEWLINE);
    assert forall|j: int| 0 <= j < n implies b[j] != NEWLINE by {
        assert(b[j] == t[j]);
        if t[j] == NEWLINE {
            assert(t.contains(NEWLINE));
        }
    }
    assert(first_newline(b, n));
    let i = choose|i: int| first_newline(b, i);
    lemma_first_newline_unique(b, i, n);
    assert(b.take(n + 1) =~= t.push(NEWLINE));
    assert(b.skip(n + 1) =~= rest);
    let line = t.push(NEWLINE);
    assert(!is_ascii_ws(line[0]));
    assert(!is_blank(line));
    assert(frame_value(line) == Some(v));
}

/// NDJSON framing over a duplex stream `S`: the stream plus the bytes read
/// from it that do not yet form a complete frame.
pub struct FramedConn<S> {
    stream: S,
    rd_buf: Vec<u8>,
}

impl<S> FramedConn<S> {
    /// The bytes read but not yet framed.
    pub closed spec fn spec_buffer(&self) -> Seq<u8> {
        self.rd_buf@
    }

    /// The wrapped stream.
    pub closed spec fn spec_stream(&self) -> S {
        self.stream
    }

    /// Wrap a duplex stream; nothing is buffered yet.
    pub fn new(stream: S) -> (r: FramedConn<S>)
        ensures
            r.spec_stream() == stream,
            r.spec_buffer() == Seq::<u8>::empty(),
    {
        FramedConn { stream, rd_buf: Vec::new() }
    }

    /// The wrapped stream, to read from or write to.
    pub fn stream_mut(&mut self) -> (r: &mut S)
        ensures
            *r == old(self).spec_stream(),
            final(self).spec_buffer() == old(self).spec_buffer(),
            final(self).spec_stream() == *final(r),
    {
        &mut self.stream
    }

    /// Append bytes just read from the stream.
    pub fn feed(&mut self, bytes: &[u8])
        ensures
            final(self).spec_buffer() == old(self).spec_buffer() + bytes@,
            final(self).spec_stream() == old(self).spec_stream(),
    {
        let mut i: usize = 0;
        let ghost b0 = self.rd_buf@;
        while i < bytes.len()
            invariant
                i <= bytes@.len(),
                self.rd_buf@ == b0 + bytes@.take(i as int),
                self.stream == old(self).stream,
            decreases bytes@.len() - i,
        {
            self.rd_buf.push(bytes[i]);
            assert(b0 + bytes@.take(i + 1) =~= (b0 + bytes@.take(i as int)).push(bytes@[i as int]));
            i = i + 1;
        }
        assert(bytes@.take(i as int) =~= bytes@);
    }

    /// The next complete message, skipping blank lines and `null` frames:
    /// `None` when the buffer holds no complete message, else the first
    /// message that is not `null` (or the error of a frame that does not
    /// parse), with everything through it consumed.
    pub fn next_message(&mut self) -> (r: Option<Result<serde_json::Value, FrameError>>)
        ensures
            final(self).spec_stream() == old(self).spec_stream(),
            final(self).spec_buffer() == spec_next_message(old(self).spec_buffer()).1,
            match r {
                None => spec_next_message(old(self).spec_buffer()).0 is None,
                Some(Ok(v)) => spec_next_message(old(self).spec_buffer()).0 == Some(Some(v)),
                Some(Err(e)) => spec_next_message(old(self).spec_buffer()).0 == Some(None::<serde_json::Value>)
                    && e is Malformed,
            },
        decreases old(self).spec_buffer().len(),
    {
        proof {
            lemma_frame_split_shrinks(self.rd_buf@);
        }
        let ghost before = self.rd_buf@;
        let mut buf: Vec<u8> = Vec::new();
        std::mem::swap(&mut buf, &mut self.rd_buf);
        let frame = take_frame(&mut buf);
        std::mem::swap(&mut buf, &mut self.rd_buf);
        match frame {
            None => {
                proof {
                    lemma_frame_split_some(before);
                }
                None
            },
            Some(Ok(v)) => {
                if json_is_null(&v) {
                    self.next_message()
                } else {
                    Some(Ok(v))
                }
            },
            Some(Err(e)) => Some(Err(e)),
        }
    }

    /// The next complete message, skipping blank lines only: `None` when
    /// the buffer holds no complete non-blank frame, else the value of the
    /// first such frame (`null` included), or the error of a frame that does
    /// not parse, with everything through it consumed.
    pub fn next_value(&mut self) -> (r: Option<Result<serde_json::Value, FrameError>>)
        ensures
            final(self).spec_stream() == old(self).spec_stream(),
            final(self).spec_buffer() == spec_next_value(old(self).spec_buffer()).1,
            match r {
                None => spec_next_value(old(self).spec_buffer()).0 is None,
                Some(Ok(v)) => spec_next_value(old(self).spec_buffer()).0 == Some(Some(v)),
                Some(Err(e)) => spec_next_value(old(self).spec_buffer()).0 == Some(None::<serde_json::Value>)
                    && e is Malformed,
            },
        decreases old(self).spec_buffer().len(),
    {
        proof {
            lemma_frame_split_shrinks(self.rd_buf@);
        }
        let ghost before = self.rd_buf@;
        let mut buf: Vec<u8> = Vec::new();
        std::mem::swap(&mut buf, &mut self.rd_buf);
        let frame = split_frame(&mut buf);
        std::mem::swap(&mut buf, &mut self.rd_buf);
        match frame {
            None => None,
            Some(line) => {
                if line_is_blank(line.as_slice()) {
                    self.next_value()
                } else {
                    match json_parse(line.as_slice()) {
                        Ok(v) => Some(Ok(v)),
                        Err(e) => Some(Err(FrameError::Malformed(e))),
                    }
                }
            },
        }
    }

    /// What a read reports when the peer has closed the stream: a clean end
    /// (`Ok(None)`) when nothing is buffered, else `ClosedMidFrame`, since
    /// bytes are buffered that never became a complete frame.
    pub fn on_peer_closed(&self) -> (r: Result<Option<serde_json::Value>, FrameError>)
        ensures
            r is Ok <==> self.spec_buffer().len() == 0,
            r matches Ok(v) ==> v is None,
            r matches Err(e) ==> e is ClosedMidFrame,
    {
        if self.rd_buf.len() == 0 {
            Ok(None)
        } else {
            Err(FrameError::ClosedMidFrame)
        }
    }
}

} // verus!
