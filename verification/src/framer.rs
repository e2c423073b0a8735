//! Line framing: turns a growing buffer of inbound bytes into complete text
//! lines.  A line ends at the first line feed; one carriage return directly
//! before the line feed is dropped.  Lines are bounded in length and must be
//! pure ASCII; the two failures stay distinguishable.

use vstd::prelude::*;

verus! {

/// Longest accepted line, in bytes, after the line break is stripped.
pub const MAX_LINE_LEN: usize = 1000;

/// Why a buffer could not be framed into a line.
#[derive(Clone, Copy, Debug, PartialEq, Eq, Structural)]
pub enum FrameError {
    /// The line (or the still unterminated buffer) exceeds `MAX_LINE_LEN`.
    LineTooLong,
    /// A byte outside the ASCII range; `offset` is the position of the first
    /// such byte within the decoded line.
    InvalidCharacter { offset: usize },
}

/// `n` is the position of the first line feed in `b`.
pub open spec fn line_break_at(b: Seq<u8>, n: int) -> bool {
    &&& 0 <= n < b.len()
    &&& b[n] == 10
    &&& forall|j: int| 0 <= j < n ==> b[j] != 10
}

/// `b` holds at least one complete line.
pub open spec fn has_line_break(b: Seq<u8>) -> bool {
    exists|n: int| line_break_at(b, n)
}

/// The position of the first line feed in `b`.
pub open spec fn break_pos(b: Seq<u8>) -> int {
    choose|n: int| line_break_at(b, n)
}

/// A raw line with one trailing carriage return removed.
pub open spec fn strip_cr(raw: Seq<u8>) -> Seq<u8> {
    if raw.len() > 0 && raw.last() == 13 {
        raw.drop_last()
    } else {
        raw
    }
}

/// Every byte of `b` is ASCII.
pub open spec fn ascii_line(b: Seq<u8>) -> bool {
    forall|i: int| 0 <= i < b.len() ==> #[trigger] b[i] < 128
}

/// `off` is the position of the first non-ASCII byte of `b`.
pub open spec fn first_bad_at(b: Seq<u8>, off: int) -> bool {
    &&& 0 <= off < b.len()
    &&& b[off] >= 128
    &&& forall|j: int| 0 <= j < off ==> #[trigger] b[j] < 128
}

/// The characters of an ASCII byte sequence, code point for code point.
pub open spec fn ascii_chars_of(b: Seq<u8>) -> Seq<char> {
    Seq::new(b.len(), |i: int| b[i] as char)
}

/// There is exactly one position of the first line feed.
pub proof fn lemma_break_pos(b: Seq<u8>, n: int)
    requires
        line_break_at(b, n),
    ensures
        has_line_break(b),
        break_pos(b) == n,
{
    let m = break_pos(b);
    assert(line_break_at(b, m));
    if m < n {
        assert(b[m] != 10);
    } else if n < m {
        assert(b[n] != 10);
    }
}

/// Relies on `String::from_utf8`: bytes below 0x80 decode as UTF-8 to exactly
/// the characters with the same code points.
#[verifier::external_body]
fn ascii_to_string(bytes: Vec<u8>) -> (r: String)
    requires
        ascii_line(bytes@),
    ensures
        r@ == ascii_chars_of(bytes@),
{
    String::from_utf8(bytes).unwrap_or_default()
}

fn copy_range(buf: &Vec<u8>, from: usize, to: usize) -> (r: Vec<u8>)
    requires
        from <= to <= buf@.len(),
    ensures
        r@ == buf@.subrange(from as int, to as int),
{
    let mut r: Vec<u8> = Vec::new();
    let mut i: usize = from;
    while i < to
        invariant
            from <= i <= to <= buf@.len(),
            r@ == buf@.subrange(from as int, i as int),
        decreases to - i,
    {
        r.push(buf[i]);
        proof {
            assert(r@ =~= buf@.subrange(from as int, i + 1 as int));
        }
        i = i + 1;
    }
    r
}

fn find_break(buf: &Vec<u8>) -> (r: Option<usize>)
    ensures
        r matches Some(n) ==> line_break_at(buf@, n as int),
        r is None ==> !has_line_break(buf@),
{
    let mut i: usize = 0;
    let len = buf.len();
    while i < len
        invariant
            0 <= i <= len == buf@.len(),
            forall|j: int| 0 <= j < i ==> buf@[j] != 10,
        decreases len - i,
    {
        if buf[i] == 10 {
            return Some(i);
        }
        i = i + 1;
    }
    proof {
        if has_line_break(buf@) {
            let n = break_pos(buf@);
            assert(line_break_at(buf@, n));
            assert(buf@[n] != 10);
        }
    }
    None
}

fn scan_ascii(line: &Vec<u8>) -> (r: Option<usize>)
    ensures
        r matches Some(off) ==> first_bad_at(line@, off as int),
        r is None ==> ascii_line(line@),
{
    let mut i: usize = 0;
    let len = line.len();
    while i < len
        invariant
            0 <= i <= len == line@.len(),
            forall|j: int| 0 <= j < i ==> #[trigger] line@[j] < 128,
        decreases len - i,
    {
        if line[i] >= 128 {
            return Some(i);
        }
        i = i + 1;
    }
    None
}

/// Extracted line bytes of a buffer with a break at `n`.
pub open spec fn line_of(pre: Seq<u8>, n: int) -> Seq<u8> {
    strip_cr(pre.subrange(0, n))
}

/// Framer for inbound bytes: ASCII lines, bounded length.  The caller owns
/// the buffer; `decode` consumes a line (and its break) from its front.
pub struct AsciiLinesCodec {}

impl AsciiLinesCodec {
    pub fn new() -> AsciiLinesCodec {
        AsciiLinesCodec {}
    }

    /// Frame one line out of `buf`, or report that more bytes are needed.
    /// On an error `buf` stays as it was; the session is expected to stop.
    pub fn decode(&mut self, buf: &mut Vec<u8>) -> (r: Result<Option<String>, FrameError>)
        ensures
            decode_post(old(buf)@, final(buf)@, r),
    {
        match find_break(buf) {
            None => {
                if buf.len() > MAX_LINE_LEN {
                    Err(FrameError::LineTooLong)
                } else {
                    Ok(None)
                }
            },
            Some(n) => {
                proof {
                    lemma_break_pos(old(buf)@, n as int);
                }
                let mut line = copy_range(buf, 0, n);
                if line.len() > 0 && line[line.len() - 1] == 13 {
                    line.pop();
                }
                proof {
                    assert(line@ =~= line_of(old(buf)@, n as int));
                }
                if line.len() > MAX_LINE_LEN {
                    return Err(FrameError::LineTooLong);
                }
                match scan_ascii(&line) {
                    Some(off) => Err(FrameError::InvalidCharacter { offset: off }),
                    None => {
                        let rest = copy_range(buf, n + 1, buf.len());
                        let s = ascii_to_string(line);
                        *buf = rest;
                        Ok(Some(s))
                    },
                }
            },
        }
    }

    /// Frame the final line at end of input: a trailing, unterminated line is
    /// still delivered; an empty buffer means there is nothing left.
    pub fn decode_eof(&mut self, buf: &mut Vec<u8>) -> (r: Result<Option<String>, FrameError>)
        ensures
            decode_eof_post(old(buf)@, final(buf)@, r),
    {
        match find_break(buf) {
            Some(_) => self.decode(buf),
            None => {
                if buf.len() == 0 {
                    return Ok(None);
                }
                let mut line = copy_range(buf, 0, buf.len());
                if line.len() > 0 && line[line.len() - 1] == 13 {
                    line.pop();
                }
                proof {
                    assert(line@ =~= strip_cr(old(buf)@));
                }
                if line.len() > MAX_LINE_LEN {
                    return Err(FrameError::LineTooLong);
                }
                match scan_ascii(&line) {
                    Some(off) => Err(FrameError::InvalidCharacter { offset: off }),
                    None => {
                        let s = ascii_to_string(line);
                        buf.clear();
                        Ok(Some(s))
                    },
                }
            },
        }
    }
}

/// What `decode` guarantees, over the buffer before (`pre`) and after
/// (`post`) the call.
pub open spec fn decode_post(pre: Seq<u8>, post: Seq<u8>, r: Result<Option<String>, FrameError>) -> bool {
    if !has_line_break(pre) {
        post == pre && if pre.len() > MAX_LINE_LEN {
            r == Result::<Option<String>, FrameError>::Err(FrameError::LineTooLong)
        } else {
            r matches Ok(l) && (l is None)
        }
    } else {
        let line = line_of(pre, break_pos(pre));
        framed_line_post(pre, post, r, line, pre.subrange(break_pos(pre) + 1, pre.len() as int))
    }
}

/// What `decode_eof` guarantees.
pub open spec fn decode_eof_post(pre: Seq<u8>, post: Seq<u8>, r: Result<Option<String>, FrameError>) -> bool {
    if has_line_break(pre) {
        decode_post(pre, post, r)
    } else if pre.len() == 0 {
        post == pre && (r matches Ok(l) && l is None)
    } else {
        framed_line_post(pre, post, r, strip_cr(pre), Seq::<u8>::empty())
    }
}

/// The checks shared by `decode` and `decode_eof` once the raw line bytes are
/// known: length bound, ASCII-only, and the leftover buffer on success.
pub open spec fn framed_line_post(
    pre: Seq<u8>,
    post: Seq<u8>,
    r: Result<Option<String>, FrameError>,
    line: Seq<u8>,
    rest: Seq<u8>,
) -> bool {
    if line.len() > MAX_LINE_LEN {
        post == pre && r == Result::<Option<String>, FrameError>::Err(FrameError::LineTooLong)
    } else if !ascii_line(line) {
        &&& post == pre
        &&& r matches Err(e)
        &&& e matches FrameError::InvalidCharacter { offset }
        &&& first_bad_at(line, offset as int)
    } else {
        &&& post == rest
        &&& r matches Ok(l)
        &&& l matches Some(s)
        &&& s@ == ascii_chars_of(line)
    }
}

} // verus!
