//! The stdio protocol: `Content-Length` framing and the JSON-RPC methods of the server.
use vstd::prelude::*;
use vstd::utf8::{decode_utf8, encode_utf8, valid_utf8};

use crate::error::{code_of, data_of, message_of, to_jsonrpc_error, BridgeError};
use crate::json::{
    a_member_is_the_first_with_its_key, array_of, int_number, lemma_member_at, Json, JsonNumber,
    JsonView, ObjectBuilder,
};
use crate::jsonrpc_code::METHOD_NOT_FOUND;
use crate::tools::ToolDescriptor;
use crate::text::{
    ascii_lowered, chars_of, decimal, decimal_text, find_char, join2, lower_ascii_chars,
    parse_unsigned, parse_unsigned_chars, same_text, slice_chars, split_once, string_of,
    trim_chars, trimmed, utf8_text,
};

verus! {

/// The longest body that is read.
pub const MAX_BODY_BYTES: usize = 16 * 1024 * 1024;

/// The header may grow to this many bytes without having ended.
pub const MAX_HEADER_BYTES: usize = 8 * 1024;

/// Why a frame could not be read.
#[derive(Clone, Copy, Debug, PartialEq, Eq, Structural)]
pub enum FrameError {
    HeaderTooLong,
    NotUtf8,
    BadContentLength,
    MissingContentLength,
    BodyTooLarge { len: usize },
    UnexpectedEof,
}

/// The bytes end with an empty line.
pub open spec fn ends_header(h: Seq<u8>) -> bool {
    &&& h.len() >= 4
    &&& h[h.len() - 4] == 13
    &&& h[h.len() - 3] == 10
    &&& h[h.len() - 2] == 13
    &&& h[h.len() - 1] == 10
}

/// Where the reading of a header stands.
#[derive(Clone, Copy, Debug, PartialEq, Eq, Structural)]
pub enum HeaderStep {
    More,
    Complete,
    TooLong,
}

pub open spec fn header_step(h: Seq<u8>) -> HeaderStep {
    if ends_header(h) {
        HeaderStep::Complete
    } else if h.len() > MAX_HEADER_BYTES {
        HeaderStep::TooLong
    } else {
        HeaderStep::More
    }
}

/// A header that is read byte by byte.
pub struct HeaderReader {
    bytes: Vec<u8>,
}

impl View for HeaderReader {
    type V = Seq<u8>;

    closed spec fn view(&self) -> Seq<u8> {
        self.bytes@
    }
}

impl HeaderReader {
    pub fn new() -> (r: HeaderReader)
        ensures
            r@ == Seq::<u8>::empty(),
    {
        HeaderReader { bytes: Vec::new() }
    }

    /// Takes the next byte.
    pub fn push(&mut self, byte: u8) -> (step: HeaderStep)
        ensures
            final(self)@ == old(self)@.push(byte),
            step == header_step(final(self)@),
    {
        self.bytes.push(byte);
        let n: usize = self.bytes.len();
        if n >= 4 && self.bytes[n - 4] == 13 && self.bytes[n - 3] == 10 && self.bytes[n - 2] == 13
            && self.bytes[n - 1] == 10 {
            HeaderStep::Complete
        } else if n > MAX_HEADER_BYTES {
            HeaderStep::TooLong
        } else {
            HeaderStep::More
        }
    }

    /// The bytes so far.
    pub fn bytes(&self) -> (b: &[u8])
        ensures
            b@ == self@,
    {
        self.bytes.as_slice()
    }
}

/// The lines of a text, cut at every carriage return with a line feed behind it.
pub open spec fn split_crlf(s: Seq<char>) -> Seq<Seq<char>>
    decreases s.len(),
{
    if s.len() == 0 {
        seq![s]
    } else if s.len() >= 2 && s[s.len() - 2] == '\r' && s.last() == '\n' {
        split_crlf(s.take(s.len() - 2)).push(Seq::empty())
    } else {
        let rest = split_crlf(s.drop_last());
        rest.drop_last().push(rest.last().push(s.last()))
    }
}

fn split_crlf_chars(s: &[char]) -> (parts: Vec<Vec<char>>)
    ensures
        parts@.len() == split_crlf(s@).len(),
        forall|i: int| 0 <= i < parts@.len() ==> (#[trigger] parts@[i])@ == split_crlf(s@)[i],
{
    let mut parts: Vec<Vec<char>> = Vec::new();
    let mut cur: Vec<char> = Vec::new();
    let mut i: usize = 0;
    assert(s@.take(0) =~= Seq::<char>::empty());
    while i < s.len()
        invariant
            i <= s@.len(),
            i == s@.len() || i == 0 || !(s@[i - 1] == '\r' && s@[i as int] == '\n'),
            split_crlf(s@.take(i as int)).len() == parts@.len() + 1,
            split_crlf(s@.take(i as int)).last() == cur@,
            forall|k: int|
                0 <= k < parts@.len() ==> (#[trigger] parts@[k])@ == split_crlf(
                    s@.take(i as int),
                )[k],
        decreases s@.len() - i,
    {
        let c = s[i];
        if c == '\r' && i + 1 < s.len() && s[i + 1] == '\n' {
            assert(s@.take(i + 2).take(i as int) =~= s@.take(i as int));
            parts.push(cur);
            cur = Vec::new();
            i += 2;
        } else {
            assert(s@.take(i + 1).drop_last() =~= s@.take(i as int));
            cur.push(c);
            i += 1;
        }
    }
    assert(s@.take(s@.len() as int) =~= s@);
    parts.push(cur);
    parts
}

/// The value of a `Content-Length` line, as text.
pub open spec fn length_field(line: Seq<char>) -> Option<Seq<char>> {
    match split_once(trimmed(line), ':') {
        Some((key, value)) => if ascii_lowered(trimmed(key)) == "content-length"@ {
            Some(trimmed(value))
        } else {
            None
        },
        None => None,
    }
}

/// The content length that the lines declare: the last one counts, and one that is not a
/// number spoils the header.
pub open spec fn scan_lines(lines: Seq<Seq<char>>) -> Result<Option<nat>, FrameError>
    decreases lines.len(),
{
    if lines.len() == 0 {
        Ok(None)
    } else {
        match scan_lines(lines.drop_last()) {
            Err(e) => Err(e),
            Ok(before) => match length_field(lines.last()) {
                None => Ok(before),
                Some(text) => match parse_unsigned(text, usize::MAX as nat) {
                    Some(n) => Ok(Some(n)),
                    None => Err(FrameError::BadContentLength),
                },
            },
        }
    }
}

/// The content length that a header declares.
pub open spec fn declared_length(header: Seq<u8>) -> Result<Option<nat>, FrameError> {
    if valid_utf8(header) {
        scan_lines(split_crlf(decode_utf8(header)))
    } else {
        Err(FrameError::NotUtf8)
    }
}

fn length_value(line: &[char]) -> (r: Option<Vec<char>>)
    ensures
        match r {
            Some(v) => length_field(line@) == Some(v@),
            None => length_field(line@) is None,
        },
{
    let t = trim_chars(line);
    match find_char(t.as_slice(), ':') {
        None => None,
        Some(i) => {
            let key = slice_chars(t.as_slice(), 0, i);
            let value = slice_chars(t.as_slice(), i + 1, t.len());
            assert(key@ =~= t@.take(i as int));
            assert(value@ =~= t@.skip(i + 1));
            let key = trim_chars(key.as_slice());
            let lowered = lower_ascii_chars(key.as_slice());
            let name = string_of(lowered.as_slice());
            if same_text(name.as_str(), "content-length") {
                Some(trim_chars(value.as_slice()))
            } else {
                None
            }
        },
    }
}

proof fn lemma_scan_prefix_error(lines: Seq<Seq<char>>, i: int)
    requires
        0 <= i <= lines.len(),
        scan_lines(lines.take(i)) is Err,
    ensures
        scan_lines(lines) == scan_lines(lines.take(i)),
    decreases lines.len() - i,
{
    if i < lines.len() {
        assert(lines.take(i + 1).drop_last() =~= lines.take(i));
        lemma_scan_prefix_error(lines, i + 1);
    } else {
        assert(lines.take(i) =~= lines);
    }
}

/// The content length that a header declares.
pub fn header_length(header: &[u8]) -> (r: Result<Option<usize>, FrameError>)
    ensures
        match r {
            Ok(Some(n)) => declared_length(header@) == Ok::<Option<nat>, FrameError>(
                Some(n as nat),
            ),
            Ok(None) => declared_length(header@) == Ok::<Option<nat>, FrameError>(None),
            Err(e) => declared_length(header@) == Err::<Option<nat>, FrameError>(e),
        },
{
    let text = match utf8_text(header) {
        Some(t) => t,
        None => {
            return Err(FrameError::NotUtf8);
        },
    };
    let chars = chars_of(text.as_str());
    let lines = split_crlf_chars(chars.as_slice());
    let ghost all = split_crlf(decode_utf8(header@));
    let mut found: Option<usize> = None;
    let mut i: usize = 0;
    assert(all.take(0) =~= Seq::<Seq<char>>::empty());
    while i < lines.len()
        invariant
            i <= lines@.len(),
            valid_utf8(header@),
            all == split_crlf(decode_utf8(header@)),
            lines@.len() == all.len(),
            forall|k: int| 0 <= k < lines@.len() ==> (#[trigger] lines@[k])@ == all[k],
            match found {
                Some(n) => scan_lines(all.take(i as int)) == Ok::<Option<nat>, FrameError>(
                    Some(n as nat),
                ),
                None => scan_lines(all.take(i as int)) == Ok::<Option<nat>, FrameError>(None),
            },
        decreases lines@.len() - i,
    {
        assert(all.take(i + 1).drop_last() =~= all.take(i as int));
        assert(all.take(i + 1).last() == lines@[i as int]@);
        match length_value(lines[i].as_slice()) {
            None => {},
            Some(v) => {
                match parse_unsigned_chars(v.as_slice(), usize::MAX as u64) {
                    Some(n) => {
                        found = Some(n as usize);
                    },
                    None => {
                        proof {
                            lemma_scan_prefix_error(all, i + 1);
                        }
                        return Err(FrameError::BadContentLength);
                    },
                }
            },
        }
        i += 1;
    }
    assert(all.take(all.len() as int) =~= all);
    Ok(found)
}

/// The body length that a header announces.
pub open spec fn body_length_of(header: Seq<u8>) -> Result<nat, FrameError> {
    match declared_length(header) {
        Err(e) => Err(e),
        Ok(None) => Err(FrameError::MissingContentLength),
        Ok(Some(n)) => if n > MAX_BODY_BYTES {
            Err(FrameError::BodyTooLarge { len: n as usize })
        } else {
            Ok(n)
        },
    }
}

/// The body length that a header announces: it must announce one, of at most 16 MiB.
pub fn body_length(header: &[u8]) -> (r: Result<usize, FrameError>)
    ensures
        match r {
            Ok(n) => body_length_of(header@) == Ok::<nat, FrameError>(n as nat),
            Err(e) => body_length_of(header@) == Err::<nat, FrameError>(e),
        },
{
    match header_length(header) {
        Err(e) => Err(e),
        Ok(None) => Err(FrameError::MissingContentLength),
        Ok(Some(n)) => if n > MAX_BODY_BYTES {
            Err(FrameError::BodyTooLarge { len: n })
        } else {
            Ok(n)
        },
    }
}

/// `n` bytes of the input form the first complete header.
pub open spec fn header_ends_at(input: Seq<u8>, n: int) -> bool {
    &&& 0 <= n <= input.len()
    &&& ends_header(input.take(n))
    &&& forall|k: int| 0 <= k < n ==> !ends_header(#[trigger] input.take(k))
}

/// A frame that was read: its body, and how many bytes of the input it took.
#[derive(Debug)]
pub struct LspFrame {
    pub body: Vec<u8>,
    pub used: usize,
}

/// What reading one frame from `input` gives, where nothing comes behind `input`: the
/// body and the bytes used, nothing at the end of the input, or an error.
pub open spec fn frame_read(input: Seq<u8>) -> Result<Option<(Seq<u8>, nat)>, FrameError> {
    if exists|n: int| #[trigger] header_ends_at(input, n) && n <= MAX_HEADER_BYTES + 1 {
        let n = choose|n: int| #[trigger] header_ends_at(input, n) && n <= MAX_HEADER_BYTES + 1;
        match body_length_of(input.take(n)) {
            Err(e) => Err(e),
            Ok(len) => if n + len <= input.len() {
                Ok(Some((input.subrange(n, n + len), (n + len) as nat)))
            } else {
                Err(FrameError::UnexpectedEof)
            },
        }
    } else if input.len() > MAX_HEADER_BYTES {
        Err(FrameError::HeaderTooLong)
    } else {
        Ok(None)
    }
}

proof fn lemma_header_end_unique(input: Seq<u8>, m: int, n: int)
    requires
        header_ends_at(input, m),
        header_ends_at(input, n),
    ensures
        m == n,
{
    if m < n {
        assert(!ends_header(input.take(m)));
    } else if n < m {
        assert(!ends_header(input.take(n)));
    }
}

proof fn lemma_frame_read_at(input: Seq<u8>, n: int)
    requires
        header_ends_at(input, n),
        n <= MAX_HEADER_BYTES + 1,
    ensures
        frame_read(input) == (match body_length_of(input.take(n)) {
            Err(e) => Err(e),
            Ok(len) => if n + len <= input.len() {
                Ok(Some((input.subrange(n, n + len), (n + len) as nat)))
            } else {
                Err(FrameError::UnexpectedEof)
            },
        }),
{
    let m = choose|m: int| #[trigger] header_ends_at(input, m) && m <= MAX_HEADER_BYTES + 1;
    lemma_header_end_unique(input, m, n);
}

/// Reads one frame from the input. An input that ends inside the header is treated as
/// its end; one that ends inside the body is an error.
pub fn read_lsp_frame(input: &[u8]) -> (r: Result<Option<LspFrame>, FrameError>)
    ensures
        match r {
            Ok(Some(f)) => frame_read(input@) == Ok::<Option<(Seq<u8>, nat)>, FrameError>(
                Some((f.body@, f.used as nat)),
            ),
            Ok(None) => frame_read(input@) == Ok::<Option<(Seq<u8>, nat)>, FrameError>(None),
            Err(e) => frame_read(input@) == Err::<Option<(Seq<u8>, nat)>, FrameError>(e),
        },
{
    let mut header = HeaderReader::new();
    let mut i: usize = 0;
    assert(input@.take(0) =~= Seq::<u8>::empty());
    loop
        invariant
            i <= input@.len(),
            i <= MAX_HEADER_BYTES,
            header@ == input@.take(i as int),
            forall|k: int| 0 <= k <= i ==> !ends_header(#[trigger] input@.take(k)),
        decreases input@.len() - i,
    {
        if i == input.len() {
            assert forall|n: int| #[trigger] header_ends_at(input@, n) implies false by {
                assert(!ends_header(input@.take(n)));
            }
            return Ok(None);
        }
        let step = header.push(input[i]);
        i += 1;
        assert(input@.take(i as int) =~= input@.take(i - 1).push(input@[i - 1]));
        match step {
            HeaderStep::More => {},
            HeaderStep::TooLong => {
                assert forall|n: int|
                    #[trigger] header_ends_at(input@, n) && n <= MAX_HEADER_BYTES + 1 implies false by {
                    assert(!ends_header(input@.take(n)));
                }
                return Err(FrameError::HeaderTooLong);
            },
            HeaderStep::Complete => {
                assert(header_ends_at(input@, i as int));
                proof {
                    lemma_frame_read_at(input@, i as int);
                }
                let len: usize = match body_length(header.bytes()) {
                    Ok(n) => n,
                    Err(e) => {
                        return Err(e);
                    },
                };
                if len > input.len() - i {
                    return Err(FrameError::UnexpectedEof);
                }
                let body = copy_bytes(input, i, i + len);
                return Ok(Some(LspFrame { body, used: i + len }));
            },
        }
    }
}

/// A copy of the bytes from `from` up to `to`.
pub fn copy_bytes(b: &[u8], from: usize, to: usize) -> (v: Vec<u8>)
    requires
        from <= to <= b@.len(),
    ensures
        v@ == b@.subrange(from as int, to as int),
{
    let mut v: Vec<u8> = Vec::new();
    let mut i: usize = from;
    while i < to
        invariant
            from <= i <= to <= b@.len(),
            v@ == b@.subrange(from as int, i as int),
        decreases to - i,
    {
        v.push(b[i]);
        i += 1;
        assert(b@.subrange(from as int, i as int) =~= b@.subrange(from as int, i - 1).push(
            b@[i - 1],
        ));
    }
    v
}

/// The header of a body of `n` bytes, as text.
pub open spec fn header_text(n: nat) -> Seq<char> {
    "Content-Length: "@ + decimal(n) + "\r\n\r\n"@
}

/// A body with its header in front.
pub open spec fn framed(body: Seq<u8>) -> Seq<u8> {
    encode_utf8(header_text(body.len())) + body
}

/// Puts the header in front of a body.
pub fn frame_bytes(body: &[u8]) -> (out: Vec<u8>)
    ensures
        out@ == framed(body@),
{
    let digits = decimal_text(body.len() as u64);
    let header = crate::text::join3("Content-Length: ", digits.as_str(), "\r\n\r\n");
    let head = header.as_str().as_bytes();
    let mut out = copy_bytes(head, 0, head.len());
    assert(head@.subrange(0, head@.len() as int) =~= head@);
    let ghost front = out@;
    let mut i: usize = 0;
    while i < body.len()
        invariant
            i <= body@.len(),
            out@ == front + body@.take(i as int),
        decreases body@.len() - i,
    {
        out.push(body[i]);
        i += 1;
        assert(front + body@.take(i as int) =~= (front + body@.take(i - 1)).push(body@[i - 1]));
    }
    assert(body@.take(body@.len() as int) =~= body@);
    out
}

proof fn lemma_split_crlf_plain(s: Seq<char>)
    requires
        forall|i: int| 0 <= i < s.len() ==> s[i] != '\n',
    ensures
        split_crlf(s) == seq![s],
    decreases s.len(),
{
    if s.len() > 0 {
        lemma_split_crlf_plain(s.drop_last());
        let rest = split_crlf(s.drop_last());
        assert(rest.last() == s.drop_last());
        assert(s.drop_last().push(s.last()) =~= s);
        assert(rest.drop_last().push(s) =~= seq![s]);
    }
}

proof fn lemma_header_lines(line: Seq<char>)
    requires
        forall|i: int| 0 <= i < line.len() ==> line[i] != '\n',
    ensures
        split_crlf(line + "\r\n\r\n"@) == seq![line, Seq::empty(), Seq::empty()],
{
    reveal_strlit("\r\n\r\n");
    let h = line + "\r\n\r\n"@;
    let h2 = h.take(h.len() - 2);
    lemma_split_crlf_plain(line);
    assert(h2.take(h2.len() - 2) =~= line);
    assert(split_crlf(h2) =~= seq![line].push(Seq::empty()));
    assert(split_crlf(h) =~= seq![line].push(Seq::empty()).push(Seq::empty()));
    assert(split_crlf(h) =~= seq![line, Seq::empty(), Seq::empty()]);
}

proof fn lemma_length_line(d: Seq<char>)
    requires
        d.len() >= 1,
        crate::text::all_digits(d),
    ensures
        length_field("Content-Length: "@ + d) == Some(d),
{
    reveal_strlit("Content-Length: ");
    let line = "Content-Length: "@ + d;
    let key = "Content-Length: "@.take(14);
    let value = line.skip(15);
    assert(crate::text::is_digit(d[0]));
    assert(crate::text::is_digit(d[d.len() - 1]));
    assert(line.last() == d[d.len() - 1]);
    crate::text::lemma_trimmed_fixed(line);
    assert(line =~= key.push(':') + value);
    crate::text::lemma_split_once(key, ':', value);
    crate::text::lemma_trimmed_fixed(key);
    assert(ascii_lowered(key) == "content-length"@) by {
        reveal_strlit("content-length");
        assert(ascii_lowered(key) =~= "content-length"@);
    }
    assert(value[0] == ' ');
    assert(value.drop_first() =~= d);
    crate::text::lemma_trimmed_fixed(d);
    assert(trimmed(value) == d);
}

proof fn lemma_header_parses(n: nat)
    requires
        n <= MAX_BODY_BYTES,
    ensures
        scan_lines(split_crlf(header_text(n))) == Ok::<Option<nat>, FrameError>(Some(n)),
{
    crate::text::lemma_decimal_reads_back(n);
    crate::text::decimal_round_trip(n, usize::MAX as nat);
    let d = decimal(n);
    let line = "Content-Length: "@ + d;
    assert forall|i: int| 0 <= i < line.len() implies line[i] != '\n' by {
        reveal_strlit("Content-Length: ");
        if i >= 16 {
            assert(crate::text::is_digit(d[i - 16]));
        }
    }
    lemma_header_lines(line);
    lemma_length_line(d);
    let none = Seq::<char>::empty();
    let l1 = seq![line];
    let l2 = seq![line, none];
    let l3 = seq![line, none, none];
    assert(trimmed(none) == none);
    assert(length_field(none) is None);
    assert(l1.drop_last() =~= Seq::<Seq<char>>::empty());
    assert(scan_lines(Seq::<Seq<char>>::empty()) == Ok::<Option<nat>, FrameError>(None));
    assert(scan_lines(l1) == Ok::<Option<nat>, FrameError>(Some(n)));
    assert(l2.drop_last() =~= l1);
    assert(scan_lines(l2) == Ok::<Option<nat>, FrameError>(Some(n)));
    assert(l3.drop_last() =~= l2);
}

/// What a writer frames, a reader gets back: reading a framed body of at most 16 MiB
/// gives that body and leaves exactly what stands behind the frame.
pub proof fn framing_round_trip(body: Seq<u8>, rest: Seq<u8>)
    requires
        body.len() <= MAX_BODY_BYTES,
    ensures
        frame_read(framed(body) + rest) == Ok::<Option<(Seq<u8>, nat)>, FrameError>(
            Some((body, framed(body).len())),
        ),
{
    let n = body.len();
    let text = header_text(n);
    let h = encode_utf8(text);
    let d = decimal(n);
    let input = framed(body) + rest;
    reveal_strlit("Content-Length: ");
    reveal_strlit("\r\n\r\n");
    crate::text::lemma_decimal_reads_back(n);
    assert(vstd::utf8::is_ascii_chars(text)) by {
        assert forall|i: int| 0 <= i < text.len() implies (text[i] as u32) < 128 by {
            if 16 <= i < 16 + d.len() {
                assert(crate::text::is_digit(d[i - 16]));
            }
        }
    }
    vstd::utf8::is_ascii_chars_encode_utf8(text);
    assert(h.len() == text.len());
    vstd::utf8::encode_utf8_valid_utf8(text);
    vstd::utf8::encode_utf8_decode_utf8(text);
    lemma_header_parses(n);
    assert(body_length_of(h) == Ok::<nat, FrameError>(n));
    let end = h.len() as int;
    assert(input.take(end) =~= h);
    assert(ends_header(h));
    assert forall|k: int| 0 <= k < end implies !ends_header(#[trigger] input.take(k)) by {
        if k >= 4 {
            let i = k - 4;
            assert(input.take(k)[i] == h[i]);
            assert(h[i] == text[i] as u8);
            if 16 <= i < 16 + d.len() {
                assert(crate::text::is_digit(d[i - 16]));
            }
        }
    }
    assert(header_ends_at(input, end));
    assert(d.len() <= 8) by {
        assert(crate::text::pow10(8) == 100_000_000) by {
            reveal_with_fuel(crate::text::pow10, 9);
        }
        crate::text::lemma_decimal_len(n, 8);
    }
    lemma_frame_read_at(input, end);
    assert(input.subrange(end, end + n) =~= body);
}

/// The protocol version that the server speaks.
pub const PROTOCOL_VERSION: &'static str = "2024-11-05";

/// The name that the server gives itself.
pub const SERVER_NAME: &'static str = "one-for-all";

/// An object with these members.
pub open spec fn object_view(m: Seq<(Seq<char>, JsonView)>) -> JsonView {
    JsonView::Object(m)
}

/// The result of `initialize`.
pub open spec fn initialize_view(version: Seq<char>) -> JsonView {
    object_view(
        seq![
            ("protocolVersion"@, JsonView::String(PROTOCOL_VERSION@)),
            (
                "serverInfo"@,
                object_view(
                    seq![
                        ("name"@, JsonView::String(SERVER_NAME@)),
                        ("version"@, JsonView::String(version)),
                    ],
                ),
            ),
            (
                "capabilities"@,
                object_view(
                    seq![
                        ("tools"@, object_view(seq![("listChanged"@, JsonView::Bool(false))])),
                    ],
                ),
            ),
        ],
    )
}

/// The result of `initialize`.
pub fn initialize_result(version: &str) -> (j: Json)
    ensures
        j@ == initialize_view(version@),
{
    let mut info = ObjectBuilder::new();
    info.put("name", Json::text(SERVER_NAME));
    info.put("version", Json::text(version));
    assert(info@ =~= seq![
        ("name"@, JsonView::String(SERVER_NAME@)),
        ("version"@, JsonView::String(version@)),
    ]);
    let mut changed = ObjectBuilder::new();
    changed.put("listChanged", Json::Bool(false));
    assert(changed@ =~= seq![("listChanged"@, JsonView::Bool(false))]);
    let mut caps = ObjectBuilder::new();
    caps.put("tools", changed.done());
    assert(caps@ =~= seq![
        ("tools"@, object_view(seq![("listChanged"@, JsonView::Bool(false))])),
    ]);
    let mut all = ObjectBuilder::new();
    all.put("protocolVersion", Json::text(PROTOCOL_VERSION));
    all.put("serverInfo", info.done());
    all.put("capabilities", caps.done());
    assert(all@ =~= initialize_view(version@)->Object_0);
    all.done()
}

/// What `tools/list` says of one tool.
pub open spec fn descriptor_view(d: ToolDescriptor) -> JsonView {
    object_view(
        seq![
            ("name"@, JsonView::String(d.name@)),
            ("description"@, JsonView::String(d.description@)),
            ("inputSchema"@, d.input_schema@),
        ],
    )
}

/// The result of `tools/list`.
pub open spec fn tools_view(list: Seq<ToolDescriptor>) -> JsonView {
    object_view(
        seq![
            ("tools"@, JsonView::Array(list.map_values(|d: ToolDescriptor| descriptor_view(d)))),
        ],
    )
}

/// The result of `tools/list`.
pub fn tools_result(list: &Vec<ToolDescriptor>) -> (j: Json)
    ensures
        j@ == tools_view(list@),
{
    let mut items: Vec<Json> = Vec::new();
    let mut i: usize = 0;
    while i < list.len()
        invariant
            i <= list@.len(),
            items@.len() == i,
            forall|k: int| 0 <= k < i ==> (#[trigger] items@[k])@ == descriptor_view(list@[k]),
        decreases list@.len() - i,
    {
        let mut d = ObjectBuilder::new();
        d.put("name", Json::text(list[i].name));
        d.put("description", Json::text(list[i].description));
        d.put("inputSchema", list[i].input_schema.copy());
        assert(d@ =~= descriptor_view(list@[i as int])->Object_0);
        items.push(d.done());
        i += 1;
    }
    let array = array_of(items);
    assert(array@->Array_0 =~= list@.map_values(|d: ToolDescriptor| descriptor_view(d)));
    let mut b = ObjectBuilder::new();
    b.put("tools", array);
    assert(b@ =~= tools_view(list@)->Object_0);
    b.done()
}

/// The error member of a response.
pub open spec fn error_view(e: BridgeError) -> JsonView {
    let head = seq![
        ("code"@, JsonView::Number(int_number(code_of(e)))),
        ("message"@, JsonView::String(message_of(e))),
    ];
    match data_of(e) {
        Some(d) => object_view(head.push(("data"@, d))),
        None => object_view(head),
    }
}

/// The error member of a response: the data is left out where there is none.
pub fn error_json(e: &BridgeError) -> (j: Json)
    ensures
        j@ == error_view(*e),
{
    let r = to_jsonrpc_error(e);
    let mut b = ObjectBuilder::new();
    b.put("code", Json::signed(r.code));
    b.put("message", Json::text(r.message.as_str()));
    match r.data {
        Some(d) => {
            b.put("data", d);
        },
        None => {},
    }
    assert(b@ =~= error_view(*e)->Object_0);
    b.done()
}

/// The response to the request `id`.
pub open spec fn response_view(id: JsonView, result: Result<JsonView, JsonView>) -> JsonView {
    let head = seq![("jsonrpc"@, JsonView::String("2.0"@)), ("id"@, id)];
    match result {
        Ok(v) => object_view(head.push(("result"@, v))),
        Err(e) => object_view(head.push(("error"@, e))),
    }
}

fn response_of(id: Json, key: &str, value: Json) -> (j: Json)
    ensures
        j@ == object_view(
            seq![("jsonrpc"@, JsonView::String("2.0"@)), ("id"@, id@), (key@, value@)],
        ),
{
    let mut b = ObjectBuilder::new();
    b.put("jsonrpc", Json::text("2.0"));
    b.put("id", id);
    b.put(key, value);
    assert(b@ =~= seq![("jsonrpc"@, JsonView::String("2.0"@)), ("id"@, id@), (key@, value@)]);
    b.done()
}

/// The response to the request `id`: its result, or what went wrong.
pub fn response_json(id: &Json, result: Result<Json, BridgeError>) -> (j: Json)
    ensures
        j@ == response_view(
            id@,
            match result {
                Ok(v) => Ok(v@),
                Err(e) => Err(error_view(e)),
            },
        ),
{
    match result {
        Ok(v) => {
            let j = response_of(id.copy(), "result", v);
            assert(j@->Object_0 =~= seq![("jsonrpc"@, JsonView::String("2.0"@)), ("id"@, id@)].push(
                ("result"@, v@),
            ));
            j
        },
        Err(e) => {
            let body = error_json(&e);
            let j = response_of(id.copy(), "error", body);
            assert(j@->Object_0 =~= seq![("jsonrpc"@, JsonView::String("2.0"@)), ("id"@, id@)].push(
                ("error"@, error_view(e)),
            ));
            j
        },
    }
}

/// A notification: a method and its parameters, without an id.
pub open spec fn notify_view(method: Seq<char>, params: JsonView) -> JsonView {
    object_view(
        seq![
            ("jsonrpc"@, JsonView::String("2.0"@)),
            ("method"@, JsonView::String(method)),
            ("params"@, params),
        ],
    )
}

/// A notification: a method and its parameters, without an id.
pub fn notify_json(method: &str, params: &Json) -> (j: Json)
    ensures
        j@ == notify_view(method@, params@),
{
    let mut b = ObjectBuilder::new();
    b.put("jsonrpc", Json::text("2.0"));
    b.put("method", Json::text(method));
    b.put("params", params.copy());
    assert(b@ =~= notify_view(method@, params@)->Object_0);
    b.done()
}

/// What came in on stdin.
#[derive(Debug)]
pub enum Incoming {
    Notification { method: String, params: Json },
    Request { id: Json, method: String, params: Json },
}

/// Tells requests and notifications apart: what has no id is a notification. A missing
/// method is the empty one, missing parameters are null.
pub fn classify_frame(
    id: Option<Json>,
    method: Option<String>,
    params: Option<Json>,
) -> (r: Incoming)
    ensures
        match r {
            Incoming::Notification { method: m, params: p } => {
                &&& id is None
                &&& m@ == text_or_empty(method)
                &&& p@ == json_or_null(params)
            },
            Incoming::Request { id: i, method: m, params: p } => {
                &&& id is Some
                &&& i@ == id->Some_0@
                &&& m@ == text_or_empty(method)
                &&& p@ == json_or_null(params)
            },
        },
{
    let method = match method {
        Some(m) => m,
        None => String::new(),
    };
    let params = match params {
        Some(p) => p,
        None => Json::Null,
    };
    match id {
        Some(id) => Incoming::Request { id, method, params },
        None => Incoming::Notification { method, params },
    }
}

pub open spec fn text_or_empty(s: Option<String>) -> Seq<char> {
    match s {
        Some(t) => t@,
        None => Seq::empty(),
    }
}

pub open spec fn json_or_null(j: Option<Json>) -> JsonView {
    match j {
        Some(v) => v@,
        None => JsonView::Null,
    }
}

/// What is done with a request.
#[derive(Debug)]
pub enum Routed {
    /// The server answers by itself.
    Answer(Result<Json, BridgeError>),
    /// A tool is called.
    CallTool,
}

/// The route of a method: an answer, the failure of an unknown method with its message,
/// or a tool call.
pub enum Route {
    Answer(JsonView),
    Unknown(Seq<char>),
    CallTool,
}

pub open spec fn route_of(
    method: Seq<char>,
    list: Seq<ToolDescriptor>,
    version: Seq<char>,
) -> Route {
    if method == "initialize"@ {
        Route::Answer(initialize_view(version))
    } else if method == "ping"@ {
        Route::Answer(object_view(Seq::empty()))
    } else if method == "tools/list"@ {
        Route::Answer(tools_view(list))
    } else if method == "tools/call"@ {
        Route::CallTool
    } else {
        Route::Unknown("unknown method: "@ + method)
    }
}

/// Routes a request by its method.
pub fn handle_request(method: &str, list: &Vec<ToolDescriptor>, version: &str) -> (r: Routed)
    ensures
        match r {
            Routed::Answer(Ok(j)) => route_of(method@, list@, version@) == Route::Answer(j@),
            Routed::Answer(Err(BridgeError::Protocol(msg))) => route_of(method@, list@, version@)
                == Route::Unknown(msg@),
            Routed::Answer(Err(_)) => false,
            Routed::CallTool => route_of(method@, list@, version@) == Route::CallTool,
        },
{
    if same_text(method, "initialize") {
        Routed::Answer(Ok(initialize_result(version)))
    } else if same_text(method, "ping") {
        Routed::Answer(Ok(ObjectBuilder::new().done()))
    } else if same_text(method, "tools/list") {
        Routed::Answer(Ok(tools_result(list)))
    } else if same_text(method, "tools/call") {
        Routed::CallTool
    } else {
        Routed::Answer(Err(BridgeError::Protocol(join2("unknown method: ", method))))
    }
}

/// The tools whose result is an image.
pub open spec fn is_image_tool(tool: Seq<char>) -> bool {
    ||| tool == "page.screenshot"@
    ||| tool == "system.camera.snapshot"@
    ||| tool == "system.screen.capture_region"@
}

/// The text member of an object, or `default` where there is none.
pub open spec fn text_member(j: JsonView, key: Seq<char>, default: Seq<char>) -> Seq<char> {
    match j.member(key) {
        Some(JsonView::String(s)) => s,
        _ => default,
    }
}

fn text_member_or(j: &Json, key: &str, default: &str) -> (s: String)
    ensures
        s@ == text_member(j@, key@, default@),
{
    match j.get(key) {
        Some(v) => match v.as_text() {
            Some(t) => t.to_owned(),
            None => default.to_owned(),
        },
        None => default.to_owned(),
    }
}

/// An object whose only member is a list with one item of content.
pub open spec fn content_view(item: Seq<(Seq<char>, JsonView)>) -> JsonView {
    object_view(seq![("content"@, JsonView::Array(seq![object_view(item)]))])
}

fn content_json(item: ObjectBuilder) -> (j: Json)
    ensures
        j@ == content_view(item@),
{
    let mut items: Vec<Json> = Vec::new();
    items.push(item.done());
    let array = array_of(items);
    assert(array@->Array_0 =~= seq![object_view(item@)]);
    let mut b = ObjectBuilder::new();
    b.put("content", array);
    assert(b@ =~= content_view(item@)->Object_0);
    b.done()
}

/// The `tools/call` result of a raw broker result, whose pretty-printed text is `pretty`:
/// an image for the tools that take pictures, text for all others.
pub open spec fn tool_result_view(tool: Seq<char>, raw: JsonView, pretty: Seq<char>) -> JsonView {
    if is_image_tool(tool) {
        content_view(
            seq![
                ("type"@, JsonView::String("image"@)),
                ("data"@, JsonView::String(text_member(raw, "data_base64"@, ""@))),
                (
                    "mimeType"@,
                    JsonView::String("image/"@ + text_member(raw, "format"@, "png"@)),
                ),
            ],
        )
    } else {
        content_view(
            seq![("type"@, JsonView::String("text"@)), ("text"@, JsonView::String(pretty))],
        )
    }
}

/// Wraps a raw broker result in the envelope of a `tools/call` response.
pub fn into_tool_result(tool: &str, raw: &Json, pretty: &str) -> (j: Json)
    ensures
        j@ == tool_result_view(tool@, raw@, pretty@),
{
    let mut item = ObjectBuilder::new();
    if same_text(tool, "page.screenshot") || same_text(tool, "system.camera.snapshot") || same_text(
        tool,
        "system.screen.capture_region",
    ) {
        let format = text_member_or(raw, "format", "png");
        let data = text_member_or(raw, "data_base64", "");
        let mime = join2("image/", format.as_str());
        item.put("type", Json::text("image"));
        item.put("data", Json::text(data.as_str()));
        item.put("mimeType", Json::text(mime.as_str()));
        assert(item@ =~= seq![
            ("type"@, JsonView::String("image"@)),
            ("data"@, JsonView::String(text_member(raw@, "data_base64"@, ""@))),
            ("mimeType"@, JsonView::String("image/"@ + text_member(raw@, "format"@, "png"@))),
        ]);
        content_json(item)
    } else {
        item.put("type", Json::text("text"));
        item.put("text", Json::text(pretty));
        assert(item@ =~= seq![
            ("type"@, JsonView::String("text"@)),
            ("text"@, JsonView::String(pretty@)),
        ]);
        content_json(item)
    }
}

/// How a tool call ended: the client cancelled it first, or the broker replied.
#[derive(Debug)]
pub enum Raced {
    Cancelled,
    Replied(Result<Json, BridgeError>),
}

/// The outcome of a tool call. `pretty` is the pretty-printed reply.
pub fn handle_tools_call(tool: &str, raced: Raced, pretty: &str) -> (r: Result<Json, BridgeError>)
    ensures
        match raced {
            Raced::Cancelled => r matches Err(BridgeError::Cancelled),
            Raced::Replied(Ok(raw)) => r matches Ok(j) && j@ == tool_result_view(
                tool@,
                raw@,
                pretty@,
            ),
            Raced::Replied(Err(e)) => r matches Err(f) && f == e,
        },
{
    match raced {
        Raced::Cancelled => Err(BridgeError::Cancelled),
        Raced::Replied(Ok(raw)) => Ok(into_tool_result(tool, &raw, pretty)),
        Raced::Replied(Err(e)) => Err(e),
    }
}

/// What is done with a notification.
#[derive(Clone, Copy, Debug, PartialEq, Eq, Structural)]
pub enum NotificationAction {
    Initialized,
    Cancel,
    Ignore,
}

/// Routes a notification by its method.
pub fn handle_notification(method: &str) -> (r: NotificationAction)
    ensures
        r == (if method@ == "notifications/initialized"@ {
            NotificationAction::Initialized
        } else if method@ == "notifications/cancelled"@ {
            NotificationAction::Cancel
        } else {
            NotificationAction::Ignore
        }),
{
    if same_text(method, "notifications/initialized") {
        NotificationAction::Initialized
    } else if same_text(method, "notifications/cancelled") {
        NotificationAction::Cancel
    } else {
        NotificationAction::Ignore
    }
}

/// The key under which a request in flight is found again: a text id is its own key, any
/// other id goes by its JSON text.
pub open spec fn request_key_of(id: JsonView, json_text: Seq<char>) -> Seq<char> {
    match id {
        JsonView::String(s) => s,
        _ => json_text,
    }
}

/// The key under which a request in flight is found again. `json_text` is the JSON text
/// of the id.
pub fn request_key(id: &Json, json_text: &str) -> (s: String)
    ensures
        s@ == request_key_of(id@, json_text@),
{
    match id {
        Json::String(s) => s.clone(),
        _ => json_text.to_owned(),
    }
}

/// The id of a request, or null where it has none.
pub open spec fn id_or_null(frame: JsonView) -> JsonView {
    match frame.member("id"@) {
        Some(v) => v,
        None => JsonView::Null,
    }
}

/// The error of an unknown method.
pub open spec fn unknown_method_view(method: Seq<char>) -> JsonView {
    object_view(
        seq![
            ("code"@, JsonView::Number(int_number(METHOD_NOT_FOUND))),
            ("message"@, JsonView::String("unknown method: "@ + method)),
        ],
    )
}

/// What the server answers to a frame while no broker can be reached, `err` saying why.
pub open spec fn brokerless_view(
    frame: JsonView,
    err: BridgeError,
    list: Seq<ToolDescriptor>,
    version: Seq<char>,
) -> Option<JsonView> {
    let id = id_or_null(frame);
    let method = text_member(frame, "method"@, ""@);
    if method == "initialize"@ {
        Some(response_view(id, Ok(initialize_view(version))))
    } else if method == "ping"@ {
        Some(response_view(id, Ok(object_view(Seq::empty()))))
    } else if method == "tools/list"@ {
        Some(response_view(id, Ok(tools_view(list))))
    } else if method == "tools/call"@ {
        Some(response_view(id, Err(error_view(err))))
    } else if frame.member("id"@) is None {
        None
    } else {
        Some(response_view(id, Err(unknown_method_view(method))))
    }
}

fn failed_response(id: Json, error: Json) -> (j: Json)
    ensures
        j@ == response_view(id@, Err(error@)),
{
    let j = response_of(id, "error", error);
    assert(j@->Object_0 =~= seq![("jsonrpc"@, JsonView::String("2.0"@)), ("id"@, id@)].push(
        ("error"@, error@),
    ));
    j
}

/// Answers a frame while no broker can be reached: the server still introduces itself and
/// lists its tools, a tool call fails with `err`, and an unknown notification is ignored.
pub fn brokerless_response(
    frame: &Json,
    err: &BridgeError,
    list: &Vec<ToolDescriptor>,
    version: &str,
) -> (r: Option<Json>)
    ensures
        match r {
            Some(j) => brokerless_view(frame@, *err, list@, version@) == Some(j@),
            None => brokerless_view(frame@, *err, list@, version@) is None,
        },
{
    let method = text_member_or(frame, "method", "");
    let has_id = frame.get("id").is_some();
    let id = match frame.get("id") {
        Some(v) => v.copy(),
        None => Json::Null,
    };
    if same_text(method.as_str(), "initialize") {
        Some(response_json(&id, Ok(initialize_result(version))))
    } else if same_text(method.as_str(), "ping") {
        Some(response_json(&id, Ok(ObjectBuilder::new().done())))
    } else if same_text(method.as_str(), "tools/list") {
        Some(response_json(&id, Ok(tools_result(list))))
    } else if same_text(method.as_str(), "tools/call") {
        let e = error_json(err);
        Some(failed_response(id, e))
    } else if !has_id {
        None
    } else {
        let msg = join2("unknown method: ", method.as_str());
        let mut b = ObjectBuilder::new();
        b.put("code", Json::signed(METHOD_NOT_FOUND));
        b.put("message", Json::text(msg.as_str()));
        assert(b@ =~= unknown_method_view(method@)->Object_0);
        Some(failed_response(id, b.done()))
    }
}

/// The body length that a header announces to the server without a broker: none
/// announced means an empty body.
pub fn brokerless_body_length(header: &[u8]) -> (r: Result<usize, FrameError>)
    ensures
        match r {
            Ok(n) => match declared_length(header@) {
                Ok(Some(m)) => m == n,
                Ok(None) => n == 0,
                Err(_) => false,
            },
            Err(e) => declared_length(header@) == Err::<Option<nat>, FrameError>(e),
        },
{
    match header_length(header) {
        Err(e) => Err(e),
        Ok(None) => Ok(0),
        Ok(Some(n)) => Ok(n),
    }
}

/// Without a broker, every request gets an answer that carries its id, and every tool call
/// is refused with the failure to reach the broker. An answer holds either a result or an
/// error: the server still introduces itself, answers a ping and lists its tools.
pub proof fn brokerless_answers_every_request(
    frame: JsonView,
    err: BridgeError,
    list: Seq<ToolDescriptor>,
    version: Seq<char>,
)
    ensures
        match brokerless_view(frame, err, list, version) {
            Some(j) => {
                let method = text_member(frame, "method"@, ""@);
                &&& j.member("id"@) == Some(id_or_null(frame))
                &&& j.member("error"@) is Some <==> j.member("result"@) is None
                &&& j.member("result"@) is Some <==> method == "initialize"@ || method == "ping"@
                    || method == "tools/list"@
                &&& method == "tools/call"@ ==> j.member("error"@) == Some(error_view(err))
            },
            None => frame.member("id"@) is None,
        },
{
    reveal_strlit("jsonrpc");
    reveal_strlit("id");
    reveal_strlit("result");
    reveal_strlit("error");
    reveal_strlit("initialize");
    reveal_strlit("ping");
    reveal_strlit("tools/list");
    reveal_strlit("tools/call");
    assert("tools/list"@[6] == 'l' && "tools/call"@[6] == 'c');
    match brokerless_view(frame, err, list, version) {
        Some(j) => {
            let m = j->Object_0;
            assert(m.len() == 3);
            assert(m[0].0 == "jsonrpc"@ && m[0].0.len() == 7);
            assert(m[1] == ("id"@, id_or_null(frame)) && m[1].0.len() == 2);
            assert("result"@.len() == 6 && "error"@.len() == 5);
            assert(m.drop_first()[0] == m[1]);
            assert(m.drop_first().drop_first()[0] == m[2]);
            reveal_with_fuel(crate::json::member_of, 5);
        },
        None => {},
    }
}

/// What a tool replied reaches the client: the answer to a tool call holds one item. For the
/// tools that take pictures it is an image, whose data is the text that the reply holds under
/// `data_base64` and whose type goes by the reply's format; for every other tool it is the
/// reply as text.
pub proof fn tool_results_carry_the_reply(tool: Seq<char>, raw: JsonView, pretty: Seq<char>)
    ensures
        ({
            let picture = tool == "page.screenshot"@ || tool == "system.camera.snapshot"@ || tool
                == "system.screen.capture_region"@;
            &&& tool_result_view(tool, raw, pretty).member("content"@) matches Some(
                JsonView::Array(items),
            )
            &&& items.len() == 1
            &&& items[0].member("type"@) == Some(
                JsonView::String(
                    if picture {
                        "image"@
                    } else {
                        "text"@
                    },
                ),
            )
            &&& picture ==> match raw.member("data_base64"@) {
                Some(JsonView::String(data)) => items[0].member("data"@) == Some(
                    JsonView::String(data),
                ),
                _ => items[0].member("data"@) == Some(JsonView::String(""@)),
            }
            &&& picture ==> match raw.member("format"@) {
                Some(JsonView::String(format)) => items[0].member("mimeType"@) == Some(
                    JsonView::String("image/"@ + format),
                ),
                _ => items[0].member("mimeType"@) == Some(JsonView::String("image/"@ + "png"@)),
            }
            &&& !picture ==> items[0].member("text"@) == Some(JsonView::String(pretty))
            &&& !picture ==> items[0].member("data"@) is None
        }),
{
    reveal_strlit("content");
    reveal_strlit("type");
    reveal_strlit("data");
    reveal_strlit("mimeType");
    reveal_strlit("text");
    assert("content"@.len() == 7 && "type"@.len() == 4 && "data"@.len() == 4
        && "mimeType"@.len() == 8 && "text"@.len() == 4 && "type"@[0] == 't' && "data"@[0] == 'd'
        && "type"@[1] == 'y' && "text"@[1] == 'e' && "text"@[0] == 't');
    let m = tool_result_view(tool, raw, pretty)->Object_0;
    lemma_member_at(m, "content"@, 0);
    let item = (m[0].1->Array_0)[0]->Object_0;
    if is_image_tool(tool) {
        assert(item[0].0 == "type"@ && item[1].0 == "data"@ && item[2].0 == "mimeType"@);
        lemma_member_at(item, "type"@, 0);
        lemma_member_at(item, "data"@, 1);
        lemma_member_at(item, "mimeType"@, 2);
    } else {
        assert(item[0].0 == "type"@ && item[1].0 == "text"@);
        lemma_member_at(item, "type"@, 0);
        lemma_member_at(item, "text"@, 1);
        a_member_is_the_first_with_its_key(item, "data"@, 2);
    }
}

/// The server introduces itself with the version that it was given, the protocol that it
/// speaks, and a tool list that does not change.
pub proof fn the_server_introduces_itself(version: Seq<char>)
    ensures
        ({
            let j = initialize_view(version);
            &&& j.member("protocolVersion"@) == Some(JsonView::String("2024-11-05"@))
            &&& j.member("serverInfo"@) matches Some(info)
            &&& info.member("name"@) == Some(JsonView::String("one-for-all"@))
            &&& info.member("version"@) == Some(JsonView::String(version))
            &&& j.member("capabilities"@) matches Some(caps)
            &&& caps.member("tools"@) matches Some(tools)
            &&& tools.member("listChanged"@) == Some(JsonView::Bool(false))
        }),
{
    reveal_strlit("protocolVersion");
    reveal_strlit("serverInfo");
    reveal_strlit("capabilities");
    reveal_strlit("name");
    reveal_strlit("version");
    reveal_strlit("tools");
    reveal_strlit("listChanged");
    assert("protocolVersion"@.len() == 15 && "serverInfo"@.len() == 10
        && "capabilities"@.len() == 12 && "name"@.len() == 4 && "version"@.len() == 7
        && "tools"@.len() == 5 && "listChanged"@.len() == 11);
    let m = initialize_view(version)->Object_0;
    assert(m[0].0 == "protocolVersion"@ && m[1].0 == "serverInfo"@ && m[2].0 == "capabilities"@);
    lemma_member_at(m, "protocolVersion"@, 0);
    lemma_member_at(m, "serverInfo"@, 1);
    lemma_member_at(m, "capabilities"@, 2);
    let info = m[1].1->Object_0;
    assert(info[0].0 == "name"@ && info[1].0 == "version"@);
    lemma_member_at(info, "name"@, 0);
    lemma_member_at(info, "version"@, 1);
    let caps = m[2].1->Object_0;
    lemma_member_at(caps, "tools"@, 0);
    let tools = caps[0].1->Object_0;
    lemma_member_at(tools, "listChanged"@, 0);
}

/// The answer to `tools/list` describes every tool of the list, in its order.
pub proof fn the_tool_list_is_complete(list: Seq<ToolDescriptor>, i: int)
    ensures
        ({
            &&& tools_view(list).member("tools"@) matches Some(JsonView::Array(items))
            &&& items.len() == list.len()
            &&& 0 <= i < list.len() ==> {
                &&& items[i].member("name"@) == Some(JsonView::String(list[i].name@))
                &&& items[i].member("description"@) == Some(JsonView::String(list[i].description@))
                &&& items[i].member("inputSchema"@) == Some(list[i].input_schema@)
            }
        }),
{
    reveal_strlit("tools");
    reveal_strlit("name");
    reveal_strlit("description");
    reveal_strlit("inputSchema");
    assert("tools"@.len() == 5 && "name"@.len() == 4 && "description"@.len() == 11
        && "inputSchema"@.len() == 11 && "description"@[0] == 'd' && "inputSchema"@[0] == 'i');
    let m = tools_view(list)->Object_0;
    lemma_member_at(m, "tools"@, 0);
    if 0 <= i < list.len() {
        let d = (m[0].1->Array_0)[i]->Object_0;
        assert(d[0].0 == "name"@ && d[1].0 == "description"@ && d[2].0 == "inputSchema"@);
        lemma_member_at(d, "name"@, 0);
        lemma_member_at(d, "description"@, 1);
        lemma_member_at(d, "inputSchema"@, 2);
    }
}

/// The number with that value.
pub open spec fn is_number(j: Option<JsonView>, n: int) -> bool {
    match j {
        Some(JsonView::Number(JsonNumber::PosInt(m))) => m == n,
        Some(JsonView::Number(JsonNumber::NegInt(m))) => m == n,
        _ => false,
    }
}

/// What a client is told of a failure: a code that tells the kind of failure, a message, and
/// data where there are any. The broker's own errors are handed on as they came.
pub proof fn failures_are_told_by_code_and_message(e: BridgeError)
    ensures
        ({
            let j = error_view(e);
            &&& match e {
                BridgeError::BrokerUnavailable(msg) => {
                    &&& is_number(j.member("code"@), -32011)
                    &&& j.member("message"@) == Some(JsonView::String("BrokerUnavailable: "@ + msg@))
                    &&& j.member("data"@) is None
                },
                BridgeError::BrokerError { code, message, data } => {
                    &&& is_number(j.member("code"@), code as int)
                    &&& j.member("message"@) == Some(JsonView::String(message@))
                    &&& match data {
                        Some(d) => j.member("data"@) == Some(d@),
                        None => j.member("data"@) is None,
                    }
                },
                BridgeError::Cancelled => {
                    &&& is_number(j.member("code"@), -32800)
                    &&& j.member("message"@) == Some(JsonView::String("request cancelled"@))
                    &&& j.member("data"@) is None
                },
                BridgeError::Timeout { millis } => {
                    &&& is_number(j.member("code"@), -32007)
                    &&& j.member("message"@) == Some(
                        JsonView::String("Timeout after "@ + crate::error::duration_text(millis)),
                    )
                    &&& j.member("data"@) matches Some(d) && is_number(
                        d.member("millis"@),
                        millis as int,
                    )
                },
                BridgeError::InvalidParams { method, reason } => {
                    &&& is_number(j.member("code"@), -32602)
                    &&& j.member("message"@) == Some(
                        JsonView::String("invalid params for "@ + method@ + ": "@ + reason@),
                    )
                    &&& j.member("data"@) matches Some(d) && d.member("method"@) == Some(
                        JsonView::String(method@),
                    )
                },
                BridgeError::Protocol(msg) => {
                    &&& is_number(j.member("code"@), -32010)
                    &&& j.member("message"@) == Some(JsonView::String("ProtocolError: "@ + msg@))
                    &&& j.member("data"@) is None
                },
                BridgeError::Internal(msg) => {
                    &&& is_number(j.member("code"@), -32603)
                    &&& j.member("message"@) == Some(JsonView::String(msg@))
                    &&& j.member("data"@) is None
                },
            }
        }),
{
    reveal_strlit("code");
    reveal_strlit("message");
    reveal_strlit("data");
    reveal_strlit("millis");
    reveal_strlit("method");
    assert("code"@.len() == 4 && "message"@.len() == 7 && "data"@.len() == 4
        && "millis"@.len() == 6 && "method"@.len() == 6 && "code"@[0] == 'c' && "data"@[0] == 'd'
        && "millis"@[1] == 'i' && "method"@[1] == 'e');
    let m = error_view(e)->Object_0;
    assert(m[0].0 == "code"@ && m[1].0 == "message"@);
    lemma_member_at(m, "code"@, 0);
    lemma_member_at(m, "message"@, 1);
    if data_of(e) is Some {
        lemma_member_at(m, "data"@, 2);
        match e {
            BridgeError::Timeout { .. } => {
                lemma_member_at(m[2].1->Object_0, "millis"@, 0);
            },
            BridgeError::InvalidParams { .. } => {
                lemma_member_at(m[2].1->Object_0, "method"@, 0);
            },
            _ => {},
        }
    } else {
        a_member_is_the_first_with_its_key(m, "data"@, 2);
    }
}

/// A response carries the id of its request and either the result or the error, never both.
pub proof fn responses_carry_id_and_outcome(id: JsonView, outcome: Result<JsonView, JsonView>)
    ensures
        ({
            let j = response_view(id, outcome);
            &&& j.member("jsonrpc"@) == Some(JsonView::String("2.0"@))
            &&& j.member("id"@) == Some(id)
            &&& match outcome {
                Ok(v) => j.member("result"@) == Some(v) && j.member("error"@) is None,
                Err(e) => j.member("error"@) == Some(e) && j.member("result"@) is None,
            }
        }),
{
    reveal_strlit("jsonrpc");
    reveal_strlit("id");
    reveal_strlit("result");
    reveal_strlit("error");
    assert("jsonrpc"@.len() == 7 && "id"@.len() == 2 && "result"@.len() == 6
        && "error"@.len() == 5);
    let m = response_view(id, outcome)->Object_0;
    match outcome {
        Ok(_) => {
            assert(m[0].0 == "jsonrpc"@ && m[1].0 == "id"@ && m[2].0 == "result"@);
            lemma_member_at(m, "jsonrpc"@, 0);
            lemma_member_at(m, "id"@, 1);
            lemma_member_at(m, "result"@, 2);
            a_member_is_the_first_with_its_key(m, "error"@, 3);
        },
        Err(_) => {
            assert(m[0].0 == "jsonrpc"@ && m[1].0 == "id"@ && m[2].0 == "error"@);
            lemma_member_at(m, "jsonrpc"@, 0);
            lemma_member_at(m, "id"@, 1);
            lemma_member_at(m, "error"@, 2);
            a_member_is_the_first_with_its_key(m, "result"@, 3);
        },
    }
}

/// A notification is handed on with its method and its parameters, and without an id.
pub proof fn notifications_are_handed_on(method: Seq<char>, params: JsonView)
    ensures
        ({
            let j = notify_view(method, params);
            &&& j.member("jsonrpc"@) == Some(JsonView::String("2.0"@))
            &&& j.member("method"@) == Some(JsonView::String(method))
            &&& j.member("params"@) == Some(params)
            &&& j.member("id"@) is None
        }),
{
    reveal_strlit("jsonrpc");
    reveal_strlit("method");
    reveal_strlit("params");
    reveal_strlit("id");
    assert("jsonrpc"@.len() == 7 && "method"@.len() == 6 && "params"@.len() == 6
        && "id"@.len() == 2 && "method"@[0] == 'm' && "params"@[0] == 'p');
    let m = notify_view(method, params)->Object_0;
    assert(m[0].0 == "jsonrpc"@ && m[1].0 == "method"@ && m[2].0 == "params"@);
    lemma_member_at(m, "jsonrpc"@, 0);
    lemma_member_at(m, "method"@, 1);
    lemma_member_at(m, "params"@, 2);
    a_member_is_the_first_with_its_key(m, "id"@, 3);
}

/// The methods that the server knows are told apart by their names: it introduces itself,
/// answers a ping with an empty object, lists its tools and calls a tool; any other method is
/// unknown, and the failure names it.
pub proof fn methods_are_told_apart(
    method: Seq<char>,
    list: Seq<ToolDescriptor>,
    version: Seq<char>,
)
    ensures
        match route_of(method, list, version) {
            Route::CallTool => method == "tools/call"@,
            Route::Unknown(msg) => {
                &&& msg == "unknown method: "@ + method
                &&& method != "tools/call"@ && method != "initialize"@ && method != "ping"@
                    && method != "tools/list"@
            },
            Route::Answer(j) => {
                ||| method == "initialize"@ && j == initialize_view(version)
                ||| method == "ping"@ && j == JsonView::Object(Seq::empty())
                ||| method == "tools/list"@ && j == tools_view(list)
            },
        },
{
}

/// Without a broker the server gives the very answers that it gives with one, except that a
/// tool cannot be called: then it says why there is no broker. An unknown method is answered
/// as unknown where there is an id to answer to.
pub proof fn answers_do_not_need_the_broker(
    frame: JsonView,
    method: Seq<char>,
    err: BridgeError,
    list: Seq<ToolDescriptor>,
    version: Seq<char>,
)
    requires
        match frame.member("method"@) {
            Some(JsonView::String(m)) => method == m,
            _ => method.len() == 0,
        },
    ensures
        ({
            let id = match frame.member("id"@) {
                Some(v) => v,
                None => JsonView::Null,
            };
            let reply = brokerless_view(frame, err, list, version);
            match route_of(method, list, version) {
                Route::Answer(j) => reply == Some(response_view(id, Ok(j))),
                Route::CallTool => reply == Some(response_view(id, Err(error_view(err)))),
                Route::Unknown(_) => if frame.member("id"@) is Some {
                    reply == Some(response_view(id, Err(unknown_method_view(method))))
                } else {
                    reply is None
                },
            }
        }),
{
    reveal_strlit("");
    if method.len() == 0 {
        assert(method =~= ""@);
    }
}

/// An unknown method without a broker is answered with the code for it and its name.
pub proof fn unknown_methods_are_named(method: Seq<char>)
    ensures
        ({
            let j = unknown_method_view(method);
            &&& is_number(j.member("code"@), -32601)
            &&& j.member("message"@) == Some(JsonView::String("unknown method: "@ + method))
        }),
{
    reveal_strlit("code");
    reveal_strlit("message");
    assert("code"@.len() == 4 && "message"@.len() == 7);
    let m = unknown_method_view(method)->Object_0;
    assert(m[0].0 == "code"@ && m[1].0 == "message"@);
    lemma_member_at(m, "code"@, 0);
    lemma_member_at(m, "message"@, 1);
}

/// The header of a frame may be written in any case and with any white space round its parts:
/// what counts is the value behind the last `Content-Length`.
pub proof fn the_last_content_length_counts(lines: Seq<Seq<char>>, line: Seq<char>, n: nat)
    requires
        scan_lines(lines) is Ok,
        length_field(line) == Some(decimal(n)),
        n <= usize::MAX,
    ensures
        scan_lines(lines.push(line)) == Ok::<Option<nat>, FrameError>(Some(n)),
{
    assert(lines.push(line).drop_last() =~= lines);
    crate::text::decimal_round_trip(n, usize::MAX as nat);
}

/// A line of the header is read as a key and a value at its first colon. It declares the length
/// where the key, trimmed and in lower case, is `content-length`.
pub proof fn header_lines_are_keys_and_values(key: Seq<char>, value: Seq<char>)
    requires
        crate::text::lacks(key, ':'),
        trimmed(key.push(':') + value) == key.push(':') + value,
    ensures
        ascii_lowered(trimmed(key)) == "content-length"@ ==> length_field(key.push(':') + value)
            == Some(trimmed(value)),
        ascii_lowered(trimmed(key)) != "content-length"@ ==> length_field(key.push(':') + value)
            is None,
{
    crate::text::lemma_split_once(key, ':', value);
}

/// A header ends at the first empty line and is refused where it is longer than eight
/// kibibytes; a body is refused where it is longer than sixteen mebibytes, or where no length
/// is declared.
pub proof fn headers_and_bodies_are_limited(h: Seq<u8>, n: nat)
    ensures
        header_step(h) == HeaderStep::Complete <==> h.len() >= 4 && h.skip(h.len() - 4) == seq![
            13u8,
            10u8,
            13u8,
            10u8,
        ],
        header_step(h) == HeaderStep::TooLong ==> h.len() > 8_192,
        header_step(h) == HeaderStep::More ==> h.len() <= 8_192,
        declared_length(h) == Ok::<Option<nat>, FrameError>(Some(n)) && n <= 16_777_216
            ==> body_length_of(h) == Ok::<nat, FrameError>(n),
        declared_length(h) == Ok::<Option<nat>, FrameError>(Some(n)) && n > 16_777_216
            ==> body_length_of(h) is Err,
        declared_length(h) == Ok::<Option<nat>, FrameError>(None) ==> body_length_of(h) == Err::<
            nat,
            FrameError,
        >(FrameError::MissingContentLength),
{
    if h.len() >= 4 {
        let end = h.skip(h.len() - 4);
        assert(end.len() == 4);
        assert(end[0] == h[h.len() - 4] && end[1] == h[h.len() - 3] && end[2] == h[h.len() - 2]
            && end[3] == h[h.len() - 1]);
        if ends_header(h) {
            assert(end =~= seq![13u8, 10u8, 13u8, 10u8]);
        }
    }
}

/// An input that ends before its header is complete holds no message, unless it is longer than
/// a header may be.
pub proof fn unfinished_headers_hold_no_message(input: Seq<u8>)
    requires
        forall|n: int| !#[trigger] header_ends_at(input, n),
    ensures
        input.len() <= 8_192 ==> frame_read(input) == Ok::<Option<(Seq<u8>, nat)>, FrameError>(
            None,
        ),
        input.len() > 8_192 ==> frame_read(input) == Err::<Option<(Seq<u8>, nat)>, FrameError>(
            FrameError::HeaderTooLong,
        ),
{
}

/// A message is read by the length that its header declares: so many bytes right behind the
/// header, all of them used. An input that ends before that is cut off.
pub proof fn messages_have_their_declared_length(input: Seq<u8>, n: int, len: nat)
    requires
        header_ends_at(input, n),
        n <= 8_193,
        body_length_of(input.take(n)) == Ok::<nat, FrameError>(len),
    ensures
        n + len <= input.len() ==> frame_read(input) == Ok::<Option<(Seq<u8>, nat)>, FrameError>(
            Some((input.subrange(n, n + len), (n + len) as nat)),
        ),
        n + len > input.len() ==> frame_read(input) == Err::<Option<(Seq<u8>, nat)>, FrameError>(
            FrameError::UnexpectedEof,
        ),
{
    lemma_frame_read_at(input, n);
}

/// A request is found again by its id: a text by itself, anything else by its JSON text.
pub proof fn requests_are_found_by_their_id(id: JsonView, json_text: Seq<char>)
    ensures
        match id {
            JsonView::String(s) => request_key_of(id, json_text) == s,
            _ => request_key_of(id, json_text) == json_text,
        },
{
}

proof fn lemma_crlf_behind(s: Seq<char>, t: Seq<char>)
    requires
        crate::text::lacks(t, '\r'),
    ensures
        split_crlf(s.push('\r').push('\n') + t) == split_crlf(s).push(t),
    decreases t.len(),
{
    let head = s.push('\r').push('\n');
    let all = head + t;
    if t.len() == 0 {
        assert(all =~= head);
        assert(all.take(all.len() - 2) =~= s);
        assert(t =~= Seq::<char>::empty());
    } else {
        let shorter = t.drop_last();
        assert forall|i: int| 0 <= i < shorter.len() implies #[trigger] shorter[i] != '\r' by {
            assert(shorter[i] == t[i]);
        }
        lemma_crlf_behind(s, shorter);
        assert(all.drop_last() =~= head + shorter);
        assert(all.last() == t.last());
        if t.len() >= 2 {
            assert(all[all.len() - 2] == t[t.len() - 2]);
        } else {
            assert(all[all.len() - 2] == '\n');
        }
        assert(split_crlf(s).push(shorter).drop_last() =~= split_crlf(s));
        assert(shorter.push(t.last()) =~= t);
    }
}

proof fn lemma_crlf_whole(t: Seq<char>)
    requires
        crate::text::lacks(t, '\r'),
    ensures
        split_crlf(t) == seq![t],
    decreases t.len(),
{
    if t.len() > 0 {
        let shorter = t.drop_last();
        assert forall|i: int| 0 <= i < shorter.len() implies #[trigger] shorter[i] != '\r' by {
            assert(shorter[i] == t[i]);
        }
        lemma_crlf_whole(shorter);
        if t.len() >= 2 {
            assert(t[t.len() - 2] != '\r');
        }
        assert(shorter.push(t.last()) =~= t);
        assert(split_crlf(t) =~= seq![t]);
    }
}

/// The lines of a header come apart again, in order, where they were joined.
pub proof fn header_lines_come_apart(lines: Seq<Seq<char>>)
    requires
        lines.len() >= 1,
        forall|i: int| 0 <= i < lines.len() ==> crate::text::lacks(#[trigger] lines[i], '\r'),
    ensures
        split_crlf(crate::text::joined(lines, seq!['\r', '\n'])) == lines,
    decreases lines.len(),
{
    let end = seq!['\r', '\n'];
    if lines.len() == 1 {
        lemma_crlf_whole(lines[0]);
        assert(seq![lines[0]] =~= lines);
    } else {
        let rest = lines.drop_last();
        assert forall|i: int| 0 <= i < rest.len() implies crate::text::lacks(
            #[trigger] rest[i],
            '\r',
        ) by {
            assert(rest[i] == lines[i]);
        }
        header_lines_come_apart(rest);
        let head = crate::text::joined(rest, end);
        let last = lines.last();
        assert(crate::text::lacks(lines[lines.len() - 1], '\r'));
        assert(head + end + last =~= head.push('\r').push('\n') + last);
        lemma_crlf_behind(head, last);
        assert(rest.push(last) =~= lines);
    }
}

} // verus!
