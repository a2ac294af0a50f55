//! MCP transport: JSON-RPC 2.0 messages over stdio, framed LSP style by a
//! `Content-Length` header, a blank line and that many bytes of body.
//!
//! Framing is handled here on bytes and header lines; turning a body into a
//! JSON value is left to the caller.

use vstd::prelude::*;
use vstd::utf8::*;
use vstd::string::StringSliceAdditionalSpecFns;
use crate::text::{
    all_digits, chars_of, decimal, digits_value, is_digit, is_whitespace, lemma_decimal,
    parse_usize, trim, trim_end, trim_line_end, trim_start, usize_to_decimal,
};

verus! {

broadcast use {encode_utf8_decode_utf8, encode_utf8_valid_utf8, is_ascii_chars_encode_utf8};

/// Why a frame could not be read.
#[derive(Clone, Copy, Debug, PartialEq, Eq, Structural)]
pub enum FrameError {
    /// A header line is not valid UTF-8 (the line reader fails on it).
    InvalidText,
    /// The `Content-Length` value is not a number.
    LengthNotNumber,
    /// The header block ended without a `Content-Length`.
    MissingLength,
    /// The stream ended inside the body.
    UnexpectedEof,
}

/// What one header line does to the header being read.
#[derive(Clone, Copy, Debug, PartialEq, Eq, Structural)]
pub enum HeaderStep {
    /// Keep reading header lines, with the length seen so far.
    Continue(Option<usize>),
    /// The header is complete; the body has this many bytes.
    Body(usize),
    /// The frame is malformed.
    Fail(FrameError),
}

/// `Content-Length:`
pub open spec fn length_prefix() -> Seq<char> {
    seq!['C', 'o', 'n', 't', 'e', 'n', 't', '-', 'L', 'e', 'n', 'g', 't', 'h', ':']
}

/// One header line (as read, line terminator included): a blank line ends
/// the header, `Content-Length:` sets the length (the last one wins), any
/// other header is ignored.
pub open spec fn header_step(length: Option<usize>, line: Seq<char>) -> HeaderStep {
    let content = trim_line_end(line);
    if content.len() == 0 {
        match length {
            Some(n) => HeaderStep::Body(n),
            None => HeaderStep::Fail(FrameError::MissingLength),
        }
    } else if content.len() >= 15 && content.subrange(0, 15) == length_prefix() {
        match parse_usize(trim(content.subrange(15, content.len() as int))) {
            Some(n) => HeaderStep::Continue(Some(n)),
            None => HeaderStep::Fail(FrameError::LengthNotNumber),
        }
    } else {
        HeaderStep::Continue(length)
    }
}

fn has_length_prefix(chars: &Vec<char>, end: usize) -> (found: bool)
    requires
        end <= chars@.len(),
    ensures
        found == (end >= 15 && chars@.subrange(0, 15) == length_prefix()),
{
    if end < 15 {
        return false;
    }
    let prefix = [
        'C',
        'o',
        'n',
        't',
        'e',
        'n',
        't',
        '-',
        'L',
        'e',
        'n',
        'g',
        't',
        'h',
        ':',
    ];
    assert(prefix@ =~= length_prefix());
    let mut i: usize = 0;
    while i < 15
        invariant
            i <= 15,
            15 <= chars@.len(),
            prefix@ == length_prefix(),
            forall|k: int| 0 <= k < i ==> chars@[k] == prefix@[k],
        decreases 15 - i,
    {
        if chars[i] != prefix[i] {
            assert(chars@.subrange(0, 15)[i as int] != length_prefix()[i as int]);
            return false;
        }
        i = i + 1;
    }
    assert(chars@.subrange(0, 15) =~= length_prefix());
    true
}

/// `str::parse::<usize>` on `chars[from..to]`.
pub fn parse_usize_chars(chars: &Vec<char>, from: usize, to: usize) -> (value: Option<usize>)
    requires
        from <= to <= chars@.len(),
    ensures
        value == parse_usize(chars@.subrange(from as int, to as int)),
{
    let ghost s = chars@.subrange(from as int, to as int);
    let mut i = from;
    if i < to && chars[i] == '+' {
        i = i + 1;
    }
    let ghost digits = chars@.subrange(i as int, to as int);
    assert(digits =~= (if s.len() > 0 && s[0] == '+' {
        s.drop_first()
    } else {
        s
    }));
    if i == to {
        assert(digits.len() == 0);
        return None;
    }
    let start = i;
    let mut value: usize = 0;
    while i < to
        invariant
            start <= i <= to <= chars@.len(),
            start < to,
            s == chars@.subrange(from as int, to as int),
            digits == (if s.len() > 0 && s[0] == '+' {
                s.drop_first()
            } else {
                s
            }),
            digits == chars@.subrange(start as int, to as int),
            all_digits(chars@.subrange(start as int, i as int)),
            value == digits_value(chars@.subrange(start as int, i as int)),
        decreases to - i,
    {
        let c = chars[i];
        let ghost prefix = chars@.subrange(start as int, i as int);
        let ghost next = chars@.subrange(start as int, i + 1);
        assert(next.drop_last() =~= prefix);
        if !('0' <= c && c <= '9') {
            assert(!is_digit(digits[i - start]));
            return None;
        }
        let d = (c as u32 - '0' as u32) as usize;
        assert(all_digits(next)) by {
            assert forall|k: int| 0 <= k < next.len() implies is_digit(#[trigger] next[k]) by {
                if k < prefix.len() {
                    assert(next[k] == prefix[k]);
                }
            }
        }
        assert(digits_value(next) == value * 10 + d);
        match value.checked_mul(10) {
            Some(tens) => match tens.checked_add(d) {
                Some(v) => {
                    value = v;
                },
                None => {
                    proof {
                        if all_digits(digits) {
                            lemma_digits_value_grows(digits, (i + 1 - start) as int);
                            assert(digits.subrange(0, (i + 1 - start) as int) =~= next);
                        }
                    }
                    return None;
                },
            },
            None => {
                proof {
                    if all_digits(digits) {
                        lemma_digits_value_grows(digits, (i + 1 - start) as int);
                        assert(digits.subrange(0, (i + 1 - start) as int) =~= next);
                    }
                }
                return None;
            },
        }
        i = i + 1;
    }
    assert(chars@.subrange(start as int, to as int) =~= digits);
    Some(value)
}

/// A number only grows as digits are appended.
pub proof fn lemma_digits_value_grows(s: Seq<char>, k: int)
    requires
        0 <= k <= s.len(),
        all_digits(s),
    ensures
        digits_value(s.subrange(0, k)) <= digits_value(s),
    decreases s.len() - k,
{
    if k < s.len() {
        lemma_digits_value_grows(s, k + 1);
        let a = s.subrange(0, k);
        let b = s.subrange(0, k + 1);
        assert(b.drop_last() =~= a);
        assert(is_digit(s[k]));
        assert(b.last() == s[k]);
    } else {
        assert(s.subrange(0, k) =~= s);
    }
}

/// Classifies one header line (line terminator included).
pub fn scan_header_line(length: Option<usize>, line: &str) -> (step: HeaderStep)
    ensures
        step == header_step(length, line@),
{
    let chars = chars_of(line);
    let mut end = chars.len();
    assert(chars@.subrange(0, end as int) =~= chars@);
    while end > 0 && (chars[end - 1] == '\r' || chars[end - 1] == '\n')
        invariant
            end <= chars@.len(),
            trim_line_end(chars@) == trim_line_end(chars@.subrange(0, end as int)),
        decreases end,
    {
        assert(chars@.subrange(0, end as int).drop_last() =~= chars@.subrange(0, end - 1));
        end = end - 1;
    }
    proof {
        if end == chars@.len() {
            assert(chars@.subrange(0, end as int) =~= chars@);
        }
    }
    let ghost content = chars@.subrange(0, end as int);
    assert(trim_line_end(content) == content);
    if end == 0 {
        return match length {
            Some(n) => HeaderStep::Body(n),
            None => HeaderStep::Fail(FrameError::MissingLength),
        };
    }
    if end >= 15 {
        assert(content.subrange(0, 15) =~= chars@.subrange(0, 15));
    }
    if !has_length_prefix(&chars, end) {
        return HeaderStep::Continue(length);
    }
    let ghost rest = content.subrange(15, content.len() as int);
    assert(rest =~= chars@.subrange(15, end as int));
    let mut start: usize = 15;
    while start < end && is_whitespace(chars[start])
        invariant
            15 <= start <= end <= chars@.len(),
            content == chars@.subrange(0, end as int),
            rest == content.subrange(15, content.len() as int),
            trim_start(rest) == trim_start(chars@.subrange(start as int, end as int)),
        decreases end - start,
    {
        assert(chars@.subrange(start as int, end as int).drop_first() =~= chars@.subrange(
            start + 1,
            end as int,
        ));
        start = start + 1;
    }
    proof {
        if start == 15 {
            assert(chars@.subrange(15, end as int) =~= rest);
        }
    }
    let mut stop: usize = end;
    while stop > start && is_whitespace(chars[stop - 1])
        invariant
            15 <= start <= stop <= end <= chars@.len(),
            trim_start(chars@.subrange(start as int, end as int)) == chars@.subrange(
                start as int,
                end as int,
            ) || start == end,
            trim_end(chars@.subrange(start as int, end as int)) == trim_end(
                chars@.subrange(start as int, stop as int),
            ),
        decreases stop,
    {
        assert(chars@.subrange(start as int, stop as int).drop_last() =~= chars@.subrange(
            start as int,
            stop - 1,
        ));
        stop = stop - 1;
    }
    proof {
        if stop == end {
            assert(trim_end(chars@.subrange(start as int, stop as int)) == chars@.subrange(
                start as int,
                stop as int,
            ));
        }
        if start == end {
            assert(chars@.subrange(start as int, end as int) =~= Seq::<char>::empty());
        }
        assert(trim(rest) == chars@.subrange(start as int, stop as int));
    }
    match parse_usize_chars(&chars, start, stop) {
        Some(n) => HeaderStep::Continue(Some(n)),
        None => HeaderStep::Fail(FrameError::LengthNotNumber),
    }
}

/// Index of the first line feed at or after `i`, or the end of the input.
pub open spec fn newline_from(s: Seq<u8>, i: int) -> int
    decreases s.len() - i,
{
    if i < 0 || i >= s.len() {
        s.len() as int
    } else if s[i] == 10 {
        i
    } else {
        newline_from(s, i + 1)
    }
}

pub proof fn lemma_newline_from(s: Seq<u8>, i: int)
    requires
        0 <= i <= s.len(),
    ensures
        i <= newline_from(s, i) <= s.len(),
        newline_from(s, i) < s.len() ==> s[newline_from(s, i)] == 10,
        forall|k: int| i <= k < newline_from(s, i) ==> s[k] != 10,
    decreases s.len() - i,
{
    if i < s.len() && s[i] != 10 {
        lemma_newline_from(s, i + 1);
    }
}

/// End (exclusive) of the line starting at `i`: just past its line feed, or
/// the end of the input for a last line without one.
pub open spec fn line_end(s: Seq<u8>, i: int) -> int {
    let nl = newline_from(s, i);
    if nl < s.len() {
        nl + 1
    } else {
        s.len() as int
    }
}

/// Reading one frame from `input` starting at `pos` with the header length
/// seen so far: `Ok(None)` when the input ends before the header does,
/// otherwise where the body starts and how long it is.
pub open spec fn frame_from(input: Seq<u8>, pos: int, length: Option<usize>) -> Result<
    Option<(int, int)>,
    FrameError,
>
    decreases input.len() - pos,
{
    if pos < 0 || pos >= input.len() {
        Ok(None)
    } else {
        let end = line_end(input, pos);
        let line = input.subrange(pos, end);
        if !valid_utf8(line) {
            Err(FrameError::InvalidText)
        } else {
            match header_step(length, decode_utf8(line)) {
                HeaderStep::Continue(l) => {
                    proof {
                        lemma_newline_from(input, pos);
                    }
                    frame_from(input, end, l)
                },
                HeaderStep::Body(n) => if input.len() - end >= n {
                    Ok(Some((end, n as int)))
                } else {
                    Err(FrameError::UnexpectedEof)
                },
                HeaderStep::Fail(e) => Err(e),
            }
        }
    }
}

/// Where a frame's body lies in the input.
#[derive(Clone, Copy, Debug, PartialEq, Eq, Structural)]
pub struct FrameSpan {
    /// First byte of the body.
    pub start: usize,
    /// Body length; the frame ends at `start + len`.
    pub len: usize,
}

/// `std::str::from_utf8`: the text of `bytes` when they are valid UTF-8.
#[verifier::external_body]
fn utf8_text(bytes: &[u8]) -> (text: Option<&str>)
    ensures
        text is Some <==> valid_utf8(bytes@),
        text matches Some(t) ==> t.spec_bytes() == bytes@,
{
    std::str::from_utf8(bytes).ok()
}

/// Reads one frame from the start of `input`: header lines up to a blank
/// line (`Content-Length` required, other headers ignored), then that many
/// bytes of body. `Ok(None)` when the input ends before the header does.
pub fn read_frame(input: &[u8]) -> (frame: Result<Option<FrameSpan>, FrameError>)
    ensures
        frame == (match frame_from(input@, 0, None) {
            Ok(Some((start, len))) => Ok(
                Some(FrameSpan { start: start as usize, len: len as usize }),
            ),
            Ok(None) => Ok(None),
            Err(e) => Err(e),
        }),
{
    let n = input.len();
    let mut pos: usize = 0;
    let mut length: Option<usize> = None;
    loop
        invariant
            n == input@.len(),
            pos <= n,
            frame_from(input@, 0, None) == frame_from(input@, pos as int, length),
        decreases n - pos,
    {
        if pos == n {
            return Ok(None);
        }
        let mut nl = pos;
        while nl < n && input[nl] != 10
            invariant
                pos <= nl <= n,
                n == input@.len(),
                newline_from(input@, pos as int) == newline_from(input@, nl as int),
            decreases n - nl,
        {
            nl = nl + 1;
        }
        let end = if nl < n {
            nl + 1
        } else {
            n
        };
        assert(end == line_end(input@, pos as int));
        let line = &input[pos..end];
        let text = match utf8_text(line) {
            Some(t) => t,
            None => {
                return Err(FrameError::InvalidText);
            },
        };
        assert(text@ == decode_utf8(line@));
        match scan_header_line(length, text) {
            HeaderStep::Continue(l) => {
                length = l;
                pos = end;
            },
            HeaderStep::Body(len) => {
                if n - end >= len {
                    return Ok(Some(FrameSpan { start: end, len }));
                } else {
                    return Err(FrameError::UnexpectedEof);
                }
            },
            HeaderStep::Fail(e) => {
                return Err(e);
            },
        }
    }
}

/// The bytes of an ASCII text.
pub open spec fn ascii_bytes(s: Seq<char>) -> Seq<u8> {
    Seq::new(s.len(), |i: int| s[i] as u8)
}

/// `Content-Length: N` and the blank line that ends the header.
pub open spec fn frame_header(n: nat) -> Seq<char> {
    length_prefix() + seq![' '] + decimal(n) + seq!['\r', '\n', '\r', '\n']
}

/// A whole frame around `body`.
pub open spec fn frame_bytes(body: Seq<u8>) -> Seq<u8> {
    ascii_bytes(frame_header(body.len())) + body
}

fn push_ascii(out: &mut Vec<u8>, c: char)
    requires
        (c as u32) < 0x80,
    ensures
        final(out)@ == old(out)@.push(c as u8),
{
    out.push(c as u8);
}

/// Frames `body`: `Content-Length: N\r\n\r\n` followed by the body.
pub fn write_frame(body: &[u8]) -> (frame: Vec<u8>)
    ensures
        frame@ == frame_bytes(body@),
{
    let header_start = [
        'C',
        'o',
        'n',
        't',
        'e',
        'n',
        't',
        '-',
        'L',
        'e',
        'n',
        'g',
        't',
        'h',
        ':',
        ' ',
    ];
    let digits = usize_to_decimal(body.len());
    proof {
        lemma_decimal(body@.len());
    }
    let ghost header = frame_header(body@.len());
    assert(header_start@ =~= header.subrange(0, 16));
    let mut out: Vec<u8> = Vec::new();
    let mut i: usize = 0;
    while i < 16
        invariant
            i <= 16,
            header_start@ == header.subrange(0, 16),
            header == frame_header(body@.len()),
            out@ == ascii_bytes(header.subrange(0, i as int)),
        decreases 16 - i,
    {
        push_ascii(&mut out, header_start[i]);
        i = i + 1;
        assert(out@ =~= ascii_bytes(header.subrange(0, i as int)));
    }
    let mut j: usize = 0;
    while j < digits.len()
        invariant
            j <= digits@.len(),
            digits@ == decimal(body@.len()),
            header == frame_header(body@.len()),
            forall|k: int| 0 <= k < digits@.len() ==> (#[trigger] digits@[k] as u32) < 0x80,
            out@ == ascii_bytes(header.subrange(0, 16 + j)),
        decreases digits.len() - j,
    {
        push_ascii(&mut out, digits[j]);
        j = j + 1;
        assert(out@ =~= ascii_bytes(header.subrange(0, 16 + j)));
    }
    push_ascii(&mut out, '\r');
    push_ascii(&mut out, '\n');
    push_ascii(&mut out, '\r');
    push_ascii(&mut out, '\n');
    assert(out@ =~= ascii_bytes(header));
    let mut k: usize = 0;
    while k < body.len()
        invariant
            k <= body@.len(),
            out@ == ascii_bytes(header) + body@.subrange(0, k as int),
            header == frame_header(body@.len()),
        decreases body.len() - k,
    {
        out.push(body[k]);
        k = k + 1;
        assert(out@ =~= ascii_bytes(header) + body@.subrange(0, k as int));
    }
    assert(body@.subrange(0, body@.len() as int) =~= body@);
    out
}

/// ASCII text encodes to its own bytes, and those bytes decode back to it.
pub proof fn lemma_ascii_text(chars: Seq<char>)
    requires
        is_ascii_chars(chars),
    ensures
        encode_utf8(chars) == ascii_bytes(chars),
        valid_utf8(ascii_bytes(chars)),
        decode_utf8(ascii_bytes(chars)) == chars,
{
    is_ascii_chars_encode_utf8(chars);
    assert(encode_utf8(chars) =~= ascii_bytes(chars));
}

proof fn lemma_newline_at(s: Seq<u8>, i: int, j: int)
    requires
        0 <= i <= j < s.len(),
        s[j] == 10,
        forall|m: int| i <= m < j ==> s[m] != 10,
    ensures
        newline_from(s, i) == j,
    decreases j - i,
{
    if i < j {
        lemma_newline_at(s, i + 1, j);
    }
}

/// Reading back a written frame, whatever follows it in the stream, finds
/// the body right after the header and exactly as long as it was.
pub proof fn lemma_frame_round_trip(body: Seq<u8>, rest: Seq<u8>)
    requires
        body.len() <= usize::MAX,
    ensures
        frame_from(frame_bytes(body) + rest, 0, None) == Ok::<Option<(int, int)>, FrameError>(
            Some((frame_header(body.len()).len() as int, body.len() as int)),
        ),
        (frame_bytes(body) + rest).subrange(
            frame_header(body.len()).len() as int,
            (frame_header(body.len()).len() + body.len()) as int,
        ) == body,
{
    let n = body.len();
    let d = decimal(n);
    lemma_decimal(n);
    crate::text::lemma_parse_decimal(n as usize);
    let h = frame_header(n);
    let input = frame_bytes(body) + rest;
    let dl = d.len() as int;
    let k1 = 16 + dl + 2;
    let hl = h.len() as int;
    assert(hl == k1 + 2);
    let content = length_prefix() + seq![' '] + d;
    let l1 = content + seq!['\r', '\n'];
    let l2 = seq!['\r', '\n'];
    assert(h =~= l1 + l2);
    assert forall|j: int| 0 <= j < hl implies input[j] == (#[trigger] h[j]) as u8 by {}
    // ASCII-ness of the header lines
    assert(is_ascii_chars(l1)) by {
        assert forall|j: int| 0 <= j < l1.len() implies '\0' <= #[trigger] l1[j] <= '\u{7f}' by {
            if 16 <= j < 16 + dl {
                assert(l1[j] == d[j - 16]);
            }
        }
    }
    assert(is_ascii_chars(l2));
    lemma_ascii_text(l1);
    lemma_ascii_text(l2);
    // first line
    assert forall|m: int| 0 <= m < k1 - 1 implies input[m] != 10 by {
        assert(input[m] == h[m] as u8);
        assert(h[m] == l1[m]);
        if 16 <= m < 16 + dl {
            assert(l1[m] == d[m - 16]);
        }
    }
    assert(input[k1 - 1] == h[k1 - 1] as u8);
    lemma_newline_at(input, 0, k1 - 1);
    assert(line_end(input, 0) == k1);
    assert(input.subrange(0, k1) =~= ascii_bytes(l1)) by {
        assert forall|m: int| 0 <= m < k1 implies input.subrange(0, k1)[m] == ascii_bytes(
            l1,
        )[m] by {
            assert(input[m] == h[m] as u8);
        }
    }
    assert(l1.drop_last() =~= content + seq!['\r']);
    assert((content + seq!['\r']).drop_last() =~= content);
    assert(content.last() == d.last());
    assert(crate::text::is_digit(d[d.len() - 1]));
    assert(l1.last() == '\n');
    assert(trim_line_end(l1) == trim_line_end(content + seq!['\r']));
    assert((content + seq!['\r']).last() == '\r');
    assert(trim_line_end(content + seq!['\r']) == trim_line_end(content));
    assert(trim_line_end(content) == content);
    assert(trim_line_end(l1) == content);
    assert(content.subrange(0, 15) =~= length_prefix());
    let value = content.subrange(15, content.len() as int);
    assert(value =~= seq![' '] + d);
    assert(value.drop_first() =~= d);
    crate::text::lemma_trim_digits(d);
    assert(trim_start(value) == d);
    assert(trim(value) == d);
    assert(header_step(None, l1) == HeaderStep::Continue(Some(n as usize)));
    // second line
    assert(input[k1] == h[k1] as u8);
    assert(input[k1 + 1] == h[k1 + 1] as u8);
    lemma_newline_at(input, k1, k1 + 1);
    assert(line_end(input, k1) == k1 + 2);
    assert(input.subrange(k1, k1 + 2) =~= ascii_bytes(l2));
    assert(l2.drop_last() =~= seq!['\r']);
    assert(seq!['\r'].drop_last() =~= Seq::<char>::empty());
    assert(trim_line_end(l2) == trim_line_end(seq!['\r']));
    assert(trim_line_end(seq!['\r']) == trim_line_end(Seq::<char>::empty()));
    assert(trim_line_end(l2).len() == 0);
    assert(header_step(Some(n as usize), l2) == HeaderStep::Body(n as usize));
    assert(frame_from(input, k1, Some(n as usize)) == Ok::<Option<(int, int)>, FrameError>(
        Some((hl, n as int)),
    ));
    assert(input.subrange(hl, hl + n) =~= body);
}

/// The protocol error text of a malformed header; `None` for bad UTF-8 and
/// an early end of input, which the reader reports as I/O errors.
pub fn protocol_message(error: FrameError) -> (message: Option<&'static str>)
    ensures
        error == FrameError::LengthNotNumber ==> (message matches Some(m) && m@
            == "Content-Length 不是数字"@),
        error == FrameError::MissingLength ==> (message matches Some(m) && m@
            == "帧缺少 Content-Length 头"@),
        error == FrameError::InvalidText || error == FrameError::UnexpectedEof ==> message is None,
{
    match error {
        FrameError::LengthNotNumber => Some("Content-Length 不是数字"),
        FrameError::MissingLength => Some("帧缺少 Content-Length 头"),
        FrameError::InvalidText => None,
        FrameError::UnexpectedEof => None,
    }
}

} // verus!
