//! Content-Length framing: every message travels as a short ASCII header
//! block that declares the byte length of the body that follows it.

use vstd::prelude::*;
use vstd::slice::slice_subrange;

verus! {

/// Why a byte stream could not be cut into a further message.
#[derive(Clone, Copy, Debug, PartialEq, Eq, Structural)]
pub enum FramingError {
    /// The stream closed inside a header block or inside a body.
    Truncated,
    /// The header block ended without a `Content-Length` line.
    MissingLength,
    /// A `Content-Length` line carried no usable number.
    InvalidLength,
}

/// The header key, `Content-Length`, as bytes.
pub open spec fn length_key() -> Seq<u8> {
    seq![67u8, 111u8, 110u8, 116u8, 101u8, 110u8, 116u8, 45u8, 76u8, 101u8, 110u8, 103u8, 116u8, 104u8]
}

/// What separates the key from its value: a colon and a space.
pub open spec fn key_separator() -> Seq<u8> {
    seq![58u8, 32u8]
}

/// What closes the header block: CR LF, twice.
pub open spec fn header_end() -> Seq<u8> {
    seq![13u8, 10u8, 13u8, 10u8]
}

/// The decimal digits of `n`, most significant first, without padding.
pub open spec fn decimal(n: nat) -> Seq<u8>
    decreases n,
{
    if n < 10 {
        seq![(48 + n) as u8]
    } else {
        decimal(n / 10).push((48 + n % 10) as u8)
    }
}

/// The header block that announces a body of `n` bytes.
pub open spec fn header(n: nat) -> Seq<u8> {
    length_key() + key_separator() + decimal(n) + header_end()
}

/// The wire form of a message body: its header block, then the body itself.
pub open spec fn frame(body: Seq<u8>) -> Seq<u8> {
    header(body.len()) + body
}

fn push_decimal(out: &mut Vec<u8>, n: u64)
    ensures
        final(out)@ == old(out)@ + decimal(n as nat),
    decreases n,
{
    if n >= 10 {
        push_decimal(out, n / 10);
        let d: u8 = (n % 10) as u8;
        out.push(48u8 + d);
        assert(final(out)@ =~= old(out)@ + decimal(n as nat));
    } else {
        let d: u8 = n as u8;
        out.push(48u8 + d);
        assert(final(out)@ =~= old(out)@ + decimal(n as nat));
    }
}

/// Writes a number in decimal digits.
pub fn decimal_bytes(n: u64) -> (digits: Vec<u8>)
    ensures
        digits@ == decimal(n as nat),
{
    let mut digits: Vec<u8> = Vec::new();
    push_decimal(&mut digits, n);
    assert(digits@ =~= decimal(n as nat));
    digits
}

fn push_all(out: &mut Vec<u8>, bytes: &[u8])
    ensures
        final(out)@ == old(out)@ + bytes@,
{
    let mut i: usize = 0;
    while i < bytes.len()
        invariant
            i <= bytes.len(),
            out@ == old(out)@ + bytes@.subrange(0, i as int),
        decreases bytes.len() - i,
    {
        out.push(bytes[i]);
        i += 1;
        assert(out@ =~= old(out)@ + bytes@.subrange(0, i as int));
    }
    assert(bytes@.subrange(0, i as int) =~= bytes@);
}

/// Frames a message body for the wire.
pub fn encode(body: &[u8]) -> (wire: Vec<u8>)
    ensures
        wire@ == frame(body@),
        decode(wire@) matches Decoded::Message { start, end } && start + body@.len() == end && end
            == wire@.len() && wire@.subrange(start as int, end as int) == body@,
{
    let mut wire: Vec<u8> = vec![67u8, 111u8, 110u8, 116u8, 101u8, 110u8, 116u8, 45u8, 76u8, 101u8, 110u8, 103u8, 116u8, 104u8];
    assert(wire@ =~= length_key());
    wire.push(58u8);
    wire.push(32u8);
    assert(wire@ =~= length_key() + key_separator());
    push_decimal(&mut wire, body.len() as u64);
    wire.push(13u8);
    wire.push(10u8);
    wire.push(13u8);
    wire.push(10u8);
    assert(wire@ =~= header(body@.len()));
    push_all(&mut wire, body);
    let total: usize = wire.len();
    proof {
        lemma_decode_frame(body@);
    }
    wire
}

/// Whether a byte is ASCII white space: a space, or one of the bytes 9 to 13.
pub open spec fn is_space(b: u8) -> bool {
    b == 32 || (9 <= b && b <= 13)
}

/// `s` without its leading white space.
pub open spec fn trim_front(s: Seq<u8>) -> Seq<u8>
    decreases s.len(),
{
    if s.len() > 0 && is_space(s[0]) {
        trim_front(s.skip(1))
    } else {
        s
    }
}

/// `s` without its trailing white space.
pub open spec fn trim_back(s: Seq<u8>) -> Seq<u8>
    decreases s.len(),
{
    if s.len() > 0 && is_space(s.last()) {
        trim_back(s.drop_last())
    } else {
        s
    }
}

/// `s` without white space at either end.
pub open spec fn trim(s: Seq<u8>) -> Seq<u8> {
    trim_back(trim_front(s))
}

/// Whether a byte is an ASCII decimal digit.
pub open spec fn is_digit(b: u8) -> bool {
    48 <= b && b <= 57
}

/// Whether every byte of `s` is a decimal digit.
pub open spec fn all_digits(s: Seq<u8>) -> bool {
    forall|i: int| 0 <= i < s.len() ==> is_digit(#[trigger] s[i])
}

/// The number that a digit byte stands for.
pub open spec fn digit_value(b: u8) -> nat {
    if is_digit(b) {
        (b - 48) as nat
    } else {
        0
    }
}

/// The number that a run of decimal digits denotes.
pub open spec fn digits_value(s: Seq<u8>) -> nat
    decreases s.len(),
{
    if s.len() == 0 {
        0
    } else {
        digits_value(s.drop_last()) * 10 + digit_value(s.last())
    }
}

/// The length that a header value declares: an optional plus sign, then at
/// least one decimal digit and nothing else, denoting a number that fits
/// in `usize`.
pub open spec fn parse_length(s: Seq<u8>) -> Option<usize> {
    let d = if s.len() > 0 && s[0] == 43 {
        s.skip(1)
    } else {
        s
    };
    if d.len() > 0 && all_digits(d) && digits_value(d) <= usize::MAX {
        Some(digits_value(d) as usize)
    } else {
        None
    }
}

/// What one line of a header block says.
#[derive(Clone, Copy, Debug, PartialEq, Eq, Structural)]
pub enum HeaderLine {
    /// Nothing but white space: the header block ends here.
    Blank,
    /// A `Content-Length` line with its value.
    Length(usize),
    /// A `Content-Length` line whose value is no usable number.
    BadLength,
    /// Any other line.
    Other,
}

/// The key and its separator, which a length line begins with.
pub open spec fn length_prefix() -> Seq<u8> {
    length_key() + key_separator()
}

/// The meaning of one header line. The key is matched exactly, case
/// included, and must be followed by a colon and one space.
pub open spec fn classify_line(line: Seq<u8>) -> HeaderLine {
    let t = trim(line);
    if t.len() == 0 {
        HeaderLine::Blank
    } else if length_prefix().is_prefix_of(t) {
        match parse_length(t.skip(length_prefix().len() as int)) {
            Some(n) => HeaderLine::Length(n),
            None => HeaderLine::BadLength,
        }
    } else {
        HeaderLine::Other
    }
}

proof fn lemma_digits_prefix(s: Seq<u8>, k: int)
    requires
        0 <= k <= s.len(),
    ensures
        digits_value(s.subrange(0, k)) <= digits_value(s),
    decreases s.len(),
{
    if k == s.len() {
        assert(s.subrange(0, k) =~= s);
    } else {
        lemma_digits_prefix(s.drop_last(), k);
        assert(s.drop_last().subrange(0, k) =~= s.subrange(0, k));
    }
}

/// The number that the digits of `d` denote, where `d` is a run of at
/// least one decimal digit and nothing else and the number is at most
/// `limit`.
pub open spec fn bounded_number(d: Seq<u8>, limit: nat) -> Option<nat> {
    if d.len() > 0 && all_digits(d) && digits_value(d) <= limit {
        Some(digits_value(d))
    } else {
        None
    }
}

/// Reads the bytes of `s` from `from` up to `to` as a decimal number of at
/// most `limit`.
pub fn parse_number(s: &[u8], from: usize, to: usize, limit: usize) -> (r: Option<usize>)
    requires
        from <= to <= s.len(),
    ensures
        match bounded_number(s@.subrange(from as int, to as int), limit as nat) {
            Some(n) => r == Some(n as usize),
            None => r is None,
        },
{
    let ghost d = s@.subrange(from as int, to as int);
    if from == to {
        return None;
    }
    let mut acc: usize = 0;
    let mut i: usize = from;
    while i < to
        invariant
            from <= i <= to <= s.len(),
            d == s@.subrange(from as int, to as int),
            d.len() > 0,
            all_digits(d.subrange(0, i - from)),
            acc == digits_value(d.subrange(0, i - from)),
            acc <= limit,
        decreases to - i,
    {
        let b: u8 = s[i];
        if b < 48u8 || b > 57u8 {
            assert(!is_digit(d[i - from]));
            return None;
        }
        let digit: usize = (b - 48u8) as usize;
        proof {
            lemma_digits_prefix(d, i - from + 1);
            assert(d.subrange(0, i - from + 1).drop_last() =~= d.subrange(0, i - from));
        }
        if digit > limit || acc > (limit - digit) / 10 {
            return None;
        }
        acc = acc * 10 + digit;
        i += 1;
    }
    assert(d.subrange(0, i - from) =~= d);
    Some(acc)
}

fn parse_value(s: &[u8], from: usize, to: usize) -> (r: Option<usize>)
    requires
        from <= to <= s.len(),
    ensures
        r == parse_length(s@.subrange(from as int, to as int)),
{
    let ghost v = s@.subrange(from as int, to as int);
    let start: usize = if from < to && s[from] == 43u8 {
        from + 1
    } else {
        from
    };
    assert(s@.subrange(start as int, to as int) =~= if v.len() > 0 && v[0] == 43 {
        v.skip(1)
    } else {
        v
    });
    parse_number(s, start, to, usize::MAX)
}

fn trim_bounds(s: &[u8]) -> (r: (usize, usize))
    ensures
        r.0 <= r.1 <= s.len(),
        s@.subrange(r.0 as int, r.1 as int) == trim(s@),
{
    let n: usize = s.len();
    let mut lo: usize = 0;
    assert(s@.skip(0) =~= s@);
    while lo < n && (s[lo] == 32u8 || (9u8 <= s[lo] && s[lo] <= 13u8))
        invariant
            lo <= n,
            n == s.len(),
            trim_front(s@) == trim_front(s@.skip(lo as int)),
        decreases n - lo,
    {
        assert(s@.skip(lo as int).skip(1) =~= s@.skip(lo + 1));
        lo += 1;
    }
    assert(trim_front(s@) == s@.skip(lo as int));
    assert(s@.skip(lo as int) =~= s@.subrange(lo as int, n as int));
    let mut hi: usize = n;
    while hi > lo && (s[hi - 1] == 32u8 || (9u8 <= s[hi - 1] && s[hi - 1] <= 13u8))
        invariant
            lo <= hi <= n,
            n == s.len(),
            trim(s@) == trim_back(s@.subrange(lo as int, hi as int)),
        decreases hi,
    {
        assert(s@.subrange(lo as int, hi as int).drop_last() =~= s@.subrange(lo as int, hi - 1));
        hi -= 1;
    }
    (lo, hi)
}

/// Reads one line of a header block, line terminator included or not.
pub fn parse_header_line(line: &[u8]) -> (r: HeaderLine)
    ensures
        r == classify_line(line@),
{
    let (lo, hi) = trim_bounds(line);
    if lo == hi {
        return HeaderLine::Blank;
    }
    let prefix: [u8; 16] = [67u8, 111u8, 110u8, 116u8, 101u8, 110u8, 116u8, 45u8, 76u8, 101u8, 110u8, 103u8, 116u8, 104u8, 58u8, 32u8];
    assert(prefix@ =~= length_prefix());
    let ghost t = trim(line@);
    if hi - lo < 16 {
        return HeaderLine::Other;
    }
    let mut i: usize = 0;
    while i < 16
        invariant
            i <= 16,
            lo + 16 <= hi <= line.len(),
            prefix@ == length_prefix(),
            t == line@.subrange(lo as int, hi as int),
            t == trim(line@),
            t.subrange(0, i as int) == prefix@.subrange(0, i as int),
        decreases 16 - i,
    {
        if line[lo + i] != prefix[i] {
            assert(t[i as int] != prefix@[i as int]);
            assert(t.subrange(0, 16)[i as int] != prefix@[i as int]);
            return HeaderLine::Other;
        }
        i += 1;
        assert(t.subrange(0, i as int) =~= prefix@.subrange(0, i as int));
    }
    assert(prefix@.subrange(0, 16) =~= prefix@);
    assert(t.skip(16) =~= line@.subrange(lo + 16, hi as int));
    match parse_value(line, lo + 16, hi) {
        Some(n) => HeaderLine::Length(n),
        None => HeaderLine::BadLength,
    }
}

/// What the reader of a header block does after a line.
#[derive(Clone, Copy, Debug, PartialEq, Eq)]
pub enum HeaderStep {
    /// Read another header line, keeping this length in mind.
    NextLine(Option<usize>),
    /// The block is complete: a body of this many bytes follows.
    Body(usize),
    /// The stream cannot be framed any further.
    Fail(FramingError),
}

/// The step that follows a header line, given the length declared so far.
/// A later length line replaces an earlier one.
pub open spec fn after_line(length: Option<usize>, line: HeaderLine) -> HeaderStep {
    match line {
        HeaderLine::Blank => match length {
            Some(n) => HeaderStep::Body(n),
            None => HeaderStep::Fail(FramingError::MissingLength),
        },
        HeaderLine::Length(n) => HeaderStep::NextLine(Some(n)),
        HeaderLine::BadLength => HeaderStep::Fail(FramingError::InvalidLength),
        HeaderLine::Other => HeaderStep::NextLine(length),
    }
}

/// Takes one header line into account. `length` is what the lines before it
/// declared, `None` at the start of a block.
pub fn header_step(length: Option<usize>, line: &[u8]) -> (step: HeaderStep)
    ensures
        step == after_line(length, classify_line(line@)),
{
    match parse_header_line(line) {
        HeaderLine::Blank => match length {
            Some(n) => HeaderStep::Body(n),
            None => HeaderStep::Fail(FramingError::MissingLength),
        },
        HeaderLine::Length(n) => HeaderStep::NextLine(Some(n)),
        HeaderLine::BadLength => HeaderStep::Fail(FramingError::InvalidLength),
        HeaderLine::Other => HeaderStep::NextLine(length),
    }
}

/// What a byte stream holds next.
#[derive(Clone, Copy, Debug, PartialEq, Eq, Structural)]
pub enum Decoded {
    /// A whole message: its body lies from `start` up to `end`, and `end`
    /// bytes of the stream are used up.
    Message { start: usize, end: usize },
    /// The stream closed where a message would begin.
    EndOfStream,
    /// The stream cannot be framed.
    Failed(FramingError),
}

/// What the closing of the stream means while a header block is read:
/// the regular end where no line of the block was read yet, a truncation
/// after that.
pub open spec fn close_outcome(at_boundary: bool) -> Decoded {
    if at_boundary {
        Decoded::EndOfStream
    } else {
        Decoded::Failed(FramingError::Truncated)
    }
}

/// The outcome of a stream that closes while a header block is read.
pub fn stream_closed(at_boundary: bool) -> (r: Decoded)
    ensures
        r == close_outcome(at_boundary),
{
    if at_boundary {
        Decoded::EndOfStream
    } else {
        Decoded::Failed(FramingError::Truncated)
    }
}

/// The length of the line that starts at `from`: up to and including the
/// next line feed, or up to the end of `s` where there is none.
pub open spec fn line_len(s: Seq<u8>, from: int) -> nat
    decreases s.len() - from,
{
    if from < 0 || from >= s.len() {
        0
    } else if s[from] == 10 {
        1
    } else {
        1 + line_len(s, from + 1)
    }
}

/// What `s` holds from `pos` on, inside a header block of which the lines
/// before `pos` declared `length`.
pub open spec fn decode_from(s: Seq<u8>, pos: int, length: Option<usize>) -> Decoded
    decreases s.len() - pos,
    via decode_from_terminates
{
    if pos < 0 || pos >= s.len() {
        close_outcome(pos == 0)
    } else {
        let next = pos + line_len(s, pos);
        match after_line(length, classify_line(s.subrange(pos, next))) {
            HeaderStep::NextLine(l) => decode_from(s, next, l),
            HeaderStep::Body(n) => if next + n <= s.len() {
                Decoded::Message { start: next as usize, end: (next + n) as usize }
            } else {
                Decoded::Failed(FramingError::Truncated)
            },
            HeaderStep::Fail(e) => Decoded::Failed(e),
        }
    }
}

#[via_fn]
proof fn decode_from_terminates(s: Seq<u8>, pos: int, length: Option<usize>) {
    lemma_line_len_bounds(s, pos);
}

/// A line is never empty before the end of `s`, and never runs past it.
pub proof fn lemma_line_len_bounds(s: Seq<u8>, from: int)
    ensures
        0 <= from < s.len() ==> 1 <= line_len(s, from) <= s.len() - from,
    decreases s.len() - from,
{
    if 0 <= from < s.len() && s[from] != 10 {
        if from + 1 < s.len() {
            lemma_line_len_bounds(s, from + 1);
        } else {
            assert(line_len(s, from + 1) == 0);
        }
    }
}

/// What a whole stream `s`, read from its start until it closes, holds
/// first.
pub open spec fn decode(s: Seq<u8>) -> Decoded {
    decode_from(s, 0, None)
}

fn find_line_end(s: &[u8], from: usize) -> (next: usize)
    requires
        from < s.len(),
    ensures
        next == from + line_len(s@, from as int),
        from < next <= s.len(),
{
    let mut i: usize = from;
    while i < s.len() && s[i] != 10u8
        invariant
            from <= i <= s.len(),
            line_len(s@, from as int) == (i - from) + line_len(s@, i as int),
        decreases s.len() - i,
    {
        i += 1;
    }
    if i < s.len() {
        i + 1
    } else {
        i
    }
}

/// Cuts the first message out of a stream that is held whole in memory.
pub fn decode_next(input: &[u8]) -> (r: Decoded)
    ensures
        r == decode(input@),
        r matches Decoded::Message { start, end } ==> start <= end <= input.len(),
{
    let n: usize = input.len();
    let mut pos: usize = 0;
    let mut length: Option<usize> = None;
    while pos < n
        invariant
            pos <= n,
            n == input.len(),
            decode(input@) == decode_from(input@, pos as int, length),
        decreases n - pos,
    {
        let next: usize = find_line_end(input, pos);
        let line = slice_subrange(input, pos, next);
        match header_step(length, line) {
            HeaderStep::NextLine(l) => {
                length = l;
                pos = next;
            },
            HeaderStep::Body(len) => {
                if len <= n - next {
                    return Decoded::Message { start: next, end: next + len };
                } else {
                    return Decoded::Failed(FramingError::Truncated);
                }
            },
            HeaderStep::Fail(e) => {
                return Decoded::Failed(e);
            },
        }
    }
    stream_closed(pos == 0)
}

/// The digits that `decimal` writes denote the number they were written
/// for.
pub proof fn lemma_decimal_reads_back(n: nat)
    ensures
        decimal(n).len() >= 1,
        all_digits(decimal(n)),
        digits_value(decimal(n)) == n,
    decreases n,
{
    let d = decimal(n);
    if n < 10 {
        assert(d.drop_last() =~= Seq::<u8>::empty());
        assert(digits_value(d.drop_last()) == 0);
        assert(d.last() == (48 + n) as u8);
    } else {
        lemma_decimal_reads_back(n / 10);
        assert(d.drop_last() =~= decimal(n / 10));
        assert(d.last() == (48 + n % 10) as u8);
        assert forall|i: int| 0 <= i < d.len() implies is_digit(#[trigger] d[i]) by {
            if i < d.len() - 1 {
                assert(d[i] == decimal(n / 10)[i]);
            }
        }
    }
}

proof fn lemma_line_ends_at_feed(s: Seq<u8>, from: int, k: int)
    requires
        0 <= from,
        0 <= k,
        from + k < s.len(),
        forall|j: int| from <= j < from + k ==> #[trigger] s[j] != 10,
        s[from + k] == 10,
    ensures
        line_len(s, from) == k + 1,
    decreases k,
{
    if k > 0 {
        lemma_line_ends_at_feed(s, from + 1, k - 1);
    }
}

proof fn lemma_length_line(n: nat)
    requires
        n <= usize::MAX,
    ensures
        classify_line(length_prefix() + decimal(n) + seq![13u8, 10u8]) == HeaderLine::Length(
            n as usize,
        ),
{
    lemma_decimal_reads_back(n);
    let key = length_prefix();
    let digits = decimal(n);
    let line = key + digits + seq![13u8, 10u8];
    let a = line.drop_last();
    let b = a.drop_last();
    assert(key.len() == 16);
    assert(line[0] == 67);
    assert(trim_front(line) == line);
    assert(line.last() == 10);
    assert(a.last() == 13);
    assert(b =~= key + digits);
    assert(b.last() == digits.last());
    assert(is_digit(digits[digits.len() - 1]));
    assert(trim_back(b) == b);
    assert(trim_back(a) == trim_back(b));
    assert(trim_back(line) == trim_back(a));
    assert(trim(line) == b);
    assert(b.subrange(0, 16) =~= key);
    assert(key.is_prefix_of(b));
    assert(b.skip(16) =~= digits);
    assert(is_digit(digits[0]));
}

proof fn lemma_blank_line()
    ensures
        classify_line(seq![13u8, 10u8]) == HeaderLine::Blank,
{
    let line = seq![13u8, 10u8];
    let a = line.skip(1);
    let b = a.skip(1);
    assert(a[0] == 10);
    assert(b.len() == 0);
    assert(trim_front(b) == b);
    assert(trim_front(a) == trim_front(b));
    assert(trim_front(line) == trim_front(a));
    assert(trim_back(b) == b);
}

/// A framed message at the head of a stream is what decoding finds first,
/// whatever follows it: the body found is the body that was framed, and the
/// bytes used up are those of the frame.
pub proof fn lemma_decode_first_frame(body: Seq<u8>, rest: Seq<u8>)
    requires
        frame(body).len() + rest.len() <= usize::MAX,
    ensures
        decode(frame(body) + rest) == (Decoded::Message {
            start: header(body.len()).len() as usize,
            end: frame(body).len() as usize,
        }),
        (frame(body) + rest).subrange(header(body.len()).len() as int, frame(body).len() as int)
            == body,
{
    let n = body.len();
    let s = frame(body) + rest;
    let h = header(n);
    let digits = decimal(n);
    let first = length_prefix() + digits + seq![13u8, 10u8];
    let l = first.len() as int;
    lemma_decimal_reads_back(n);
    lemma_length_line(n);
    lemma_blank_line();
    assert(length_prefix().len() == 16);
    assert(h =~= first + seq![13u8, 10u8]);
    assert(s.subrange(h.len() as int, frame(body).len() as int) =~= body);
    assert forall|j: int| 0 <= j < l - 1 implies #[trigger] s[j] != 10 by {
        if j < 16 {
            assert(s[j] == length_prefix()[j]);
        } else if j < 16 + digits.len() {
            assert(s[j] == digits[j - 16]);
            assert(is_digit(digits[j - 16]));
        } else {
            assert(s[j] == 13);
        }
    }
    assert(s[l - 1] == 10);
    lemma_line_ends_at_feed(s, 0, l - 1);
    assert(s.subrange(0, l) =~= first);
    assert(decode_from(s, 0, None) == decode_from(s, l, Some(n as usize)));
    assert(s[l] == 13);
    assert(s[l + 1] == 10);
    lemma_line_ends_at_feed(s, l, 1);
    assert(s.subrange(l, l + 2) =~= seq![13u8, 10u8]);
    assert(h.len() == l + 2);
}

/// Decoding what `frame` wrote finds one whole message, whose body is the
/// body that was framed, and uses the stream up.
pub proof fn lemma_decode_frame(body: Seq<u8>)
    requires
        frame(body).len() <= usize::MAX,
    ensures
        decode(frame(body)) == (Decoded::Message {
            start: header(body.len()).len() as usize,
            end: frame(body).len() as usize,
        }),
        frame(body).subrange(header(body.len()).len() as int, frame(body).len() as int) == body,
{
    lemma_decode_first_frame(body, Seq::empty());
    assert(frame(body) + Seq::<u8>::empty() =~= frame(body));
}

} // verus!
