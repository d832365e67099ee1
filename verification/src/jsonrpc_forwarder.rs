//! Provides a way to write and read a socket through standard input and output, packing and
//! unpacking content-length encoding.
//!
//! The daemon process communicates via newline-separated JSON-RPC messages, whereas LSP expects
//! the HTTP-like Base Protocol with content-length headers.
use crate::buffer;
use crate::decimal;
use crate::text;
use tokio_util::bytes::BytesMut;
use vstd::prelude::*;
use vstd::slice::slice_subrange;
use vstd::utf8::*;

pub mod windows;

verus! {

/// Codec that wraps messages in `Content-Length:` headers (LSP style).
pub struct ContentLengthCodec;

/// Why a frame could not be read.
#[derive(Clone, Copy, Debug, PartialEq, Eq, Structural)]
pub enum DecodeError {
    /// The bytes of the length are not UTF-8.
    LengthNotUtf8,
    /// The length is not a number, or one that does not fit in `usize`.
    LengthNotANumber,
    /// The content is not UTF-8.
    ContentNotUtf8,
}

/// The name of the one header, with the colon and the space behind it.
pub open spec fn header_name() -> Seq<u8> {
    encode_utf8("Content-Length: "@)
}

/// What ends the headers.
pub open spec fn end_of_headers() -> Seq<u8> {
    encode_utf8("\r\n\r\n"@)
}

/// What ends the headers where `end_of_headers` does not occur.
pub open spec fn short_end_of_headers() -> Seq<u8> {
    encode_utf8("\n\n"@)
}

/// Whether `pattern` stands in `bytes` at position `at`.
pub open spec fn occurs_at(bytes: Seq<u8>, pattern: Seq<u8>, at: int) -> bool {
    0 <= at <= bytes.len() - pattern.len() && bytes.subrange(at, at + pattern.len()) == pattern
}

/// Whether `at` is the first position at which `pattern` stands in `bytes`.
pub open spec fn first_at(bytes: Seq<u8>, pattern: Seq<u8>, at: int) -> bool {
    occurs_at(bytes, pattern, at) && forall|j: int|
        0 <= j < at ==> !#[trigger] occurs_at(bytes, pattern, j)
}

/// The first position of `pattern` in `bytes`.
pub open spec fn position(bytes: Seq<u8>, pattern: Seq<u8>) -> Option<int> {
    if exists|at: int| occurs_at(bytes, pattern, at) {
        Some(choose|at: int| first_at(bytes, pattern, at))
    } else {
        None
    }
}

/// The headers at the front of `bytes`: the bytes of the length, and where the content starts.
pub open spec fn headers(bytes: Seq<u8>) -> Option<(Seq<u8>, int)> {
    match position(bytes, header_name()) {
        None => None,
        Some(name_at) => {
            let length_at = name_at + header_name().len();
            let rest = bytes.skip(length_at);
            match position(rest, end_of_headers()) {
                Some(end) => Some((rest.take(end), length_at + end + end_of_headers().len())),
                None => match position(rest, short_end_of_headers()) {
                    Some(end) => Some(
                        (rest.take(end), length_at + end + short_end_of_headers().len()),
                    ),
                    None => None,
                },
            }
        },
    }
}

/// What the front of a byte stream is.
pub enum Decoded {
    /// Not a whole frame yet.
    Incomplete,
    /// Headers whose length cannot be read.
    BadLength { error: DecodeError },
    /// A frame whose content is not UTF-8, and the bytes behind it.
    BadContent { rest: Seq<u8> },
    /// A frame, and the bytes behind it.
    Frame { text: Seq<char>, rest: Seq<u8> },
}

/// Reads one frame off the front of `bytes`. What stands before the header's name is skipped.
pub open spec fn decoded(bytes: Seq<u8>) -> Decoded {
    match headers(bytes) {
        None => Decoded::Incomplete,
        Some((length, start)) => if !valid_utf8(length) {
            Decoded::BadLength { error: DecodeError::LengthNotUtf8 }
        } else {
            match decimal::parsed(length) {
                None => Decoded::BadLength { error: DecodeError::LengthNotANumber },
                Some(n) => if bytes.len() < start + n {
                    Decoded::Incomplete
                } else {
                    let content = bytes.subrange(start, start + n);
                    if valid_utf8(content) {
                        Decoded::Frame { text: decode_utf8(content), rest: bytes.skip(start + n) }
                    } else {
                        Decoded::BadContent { rest: bytes.skip(start + n) }
                    }
                },
            }
        },
    }
}

/// Whether the end of the frame that the headers announce is a `usize`.
pub open spec fn end_fits(bytes: Seq<u8>) -> bool {
    headers(bytes) matches Some((length, start)) ==> (decimal::parsed(length) matches Some(n) ==> start + n
        <= usize::MAX)
}

/// The frame of a message: the length of its UTF-8 encoding in the header, then the encoding.
pub open spec fn frame(message: Seq<char>) -> Seq<u8> {
    let content = encode_utf8(message);
    header_name() + decimal::decimal(content.len()) + end_of_headers() + content
}

pub proof fn lemma_position(bytes: Seq<u8>, pattern: Seq<u8>, at: int)
    requires
        first_at(bytes, pattern, at),
    ensures
        position(bytes, pattern) == Some(at),
{
    let k = choose|k: int| first_at(bytes, pattern, k);
    assert(occurs_at(bytes, pattern, at) && occurs_at(bytes, pattern, k));
}

/// Finds the first occurrence of `pattern`.
fn find(bytes: &[u8], pattern: &[u8]) -> (r: Option<usize>)
    ensures
        match r {
            Some(at) => first_at(bytes@, pattern@, at as int) && position(bytes@, pattern@) == Some(
                at as int,
            ),
            None => position(bytes@, pattern@) is None,
        },
{
    let len: usize = bytes.len();
    let width: usize = pattern.len();
    let mut at: usize = 0;
    while width <= len && at <= len - width
        invariant
            len == bytes@.len(),
            width == pattern@.len(),
            width <= len ==> at <= len - width + 1,
            forall|j: int| 0 <= j < at ==> !#[trigger] occurs_at(bytes@, pattern@, j),
        decreases len - at,
    {
        let mut k: usize = 0;
        while k < width && bytes[at + k] == pattern[k]
            invariant
                len == bytes@.len(),
                width == pattern@.len(),
                width <= len,
                at <= len - width,
                k <= width,
                forall|j: int| 0 <= j < k ==> bytes@[at + j] == pattern@[j],
            decreases width - k,
        {
            k = k + 1;
        }
        if k == width {
            proof {
                assert(bytes@.subrange(at as int, at + width) =~= pattern@);
                lemma_position(bytes@, pattern@, at as int);
            }
            return Some(at);
        }
        proof {
            if occurs_at(bytes@, pattern@, at as int) {
                assert(bytes@.subrange(at as int, at + width)[k as int] == pattern@[k as int]);
            }
        }
        at = at + 1;
    }
    assert forall|j: int| !occurs_at(bytes@, pattern@, j) by {}
    None
}

/// Finds the headers: where the length starts and ends, and where the content starts.
fn find_headers(bytes: &[u8]) -> (r: Option<(usize, usize, usize)>)
    ensures
        match r {
            Some((from, to, start)) => {
                &&& from <= to <= start <= bytes@.len()
                &&& headers(bytes@) == Some((bytes@.subrange(from as int, to as int), start as int))
            },
            None => headers(bytes@) is None,
        },
{
    let len: usize = bytes.len();
    let name = "Content-Length: ".as_bytes();
    let name_at: usize = match find(bytes, name) {
        None => {
            return None;
        },
        Some(at) => at,
    };
    let from: usize = name_at + name.len();
    let rest = slice_subrange(bytes, from, len);
    assert(rest@ =~= bytes@.skip(from as int));
    let end = "\r\n\r\n".as_bytes();
    match find(rest, end) {
        Some(at) => {
            assert(rest@.take(at as int) =~= bytes@.subrange(from as int, from + at));
            Some((from, from + at, from + at + end.len()))
        },
        None => {
            let end = "\n\n".as_bytes();
            match find(rest, end) {
                Some(at) => {
                    assert(rest@.take(at as int) =~= bytes@.subrange(from as int, from + at));
                    Some((from, from + at, from + at + end.len()))
                },
                None => None,
            }
        },
    }
}

impl ContentLengthCodec {
    /// Appends the frame of `item` to `dst`.
    pub fn encode(&mut self, item: String, dst: &mut BytesMut)
        requires
            buffer::buffer_bytes(*old(dst)).len() + frame(item@).len() <= usize::MAX,
        ensures
            buffer::buffer_bytes(*final(dst)) == buffer::buffer_bytes(*old(dst)) + frame(item@),
    {
        let content = item.as_str().as_bytes();
        let length = decimal::write(content.len());
        dst.extend_from_slice("Content-Length: ".as_bytes());
        dst.extend_from_slice(length.as_slice());
        dst.extend_from_slice("\r\n\r\n".as_bytes());
        dst.extend_from_slice(content);
        assert(buffer::buffer_bytes(*dst) =~= buffer::buffer_bytes(*old(dst)) + frame(item@));
    }

    /// Whether `decode` can be called: the frame at the front does not end beyond what a
    /// `usize` counts.
    pub fn can_decode(&self, src: &BytesMut) -> (r: bool)
        ensures
            r == end_fits(buffer::buffer_bytes(*src)),
    {
        let bytes = buffer::as_slice(src);
        match find_headers(bytes) {
            None => true,
            Some((from, to, start)) => match decimal::parse(slice_subrange(bytes, from, to)) {
                None => true,
                Some(n) => n <= usize::MAX - start,
            },
        }
    }

    /// Reads one frame off the front of `src`.
    ///
    /// `Ok(None)` means that more bytes are needed. A frame whose content is not UTF-8 is
    /// removed from `src`; in the other cases without a message `src` stays as it is.
    pub fn decode(&mut self, src: &mut BytesMut) -> (r: Result<Option<String>, DecodeError>)
        requires
            end_fits(buffer::buffer_bytes(*old(src))),
        ensures
            match decoded(buffer::buffer_bytes(*old(src))) {
                Decoded::Incomplete => r matches Ok(None) && buffer::buffer_bytes(*final(src))
                    == buffer::buffer_bytes(*old(src)),
                Decoded::BadLength { error } => r == Err::<Option<String>, _>(error)
                    && buffer::buffer_bytes(*final(src)) == buffer::buffer_bytes(*old(src)),
                Decoded::BadContent { rest } => r == Err::<Option<String>, _>(
                    DecodeError::ContentNotUtf8,
                ) && buffer::buffer_bytes(*final(src)) == rest,
                Decoded::Frame { text, rest } => (r matches Ok(Some(message)) && message@ == text)
                    && buffer::buffer_bytes(*final(src)) == rest,
            },
    {
        let ghost before = buffer::buffer_bytes(*src);
        let bytes = buffer::as_slice(src);
        let len: usize = bytes.len();
        let (from, to, start): (usize, usize, usize) = match find_headers(bytes) {
            None => {
                return Ok(None);
            },
            Some(found) => found,
        };
        let length = slice_subrange(bytes, from, to);
        if text::from_utf8(length).is_none() {
            return Err(DecodeError::LengthNotUtf8);
        }
        let n: usize = match decimal::parse(length) {
            None => {
                return Err(DecodeError::LengthNotANumber);
            },
            Some(n) => n,
        };
        // If we haven't received enough bytes yet, wait.
        if len < start + n {
            return Ok(None);
        }
        // Advance the buffer past the headers, and split out the content.
        buffer::advance(src, start);
        let content = src.split_to(n);
        proof {
            assert(buffer::buffer_bytes(content) =~= before.subrange(start as int, start + n));
            assert(buffer::buffer_bytes(*src) =~= before.skip(start + n));
        }
        match text::from_utf8(buffer::as_slice(&content)) {
            None => Err(DecodeError::ContentNotUtf8),
            Some(message) => Ok(Some(message.to_owned())),
        }
    }
}

/// The bytes of the literals.
proof fn lemma_literals()
    ensures
        header_name().len() == 16,
        header_name()[0] == 67,
        end_of_headers() == seq![13u8, 10u8, 13u8, 10u8],
        short_end_of_headers() == seq![10u8, 10u8],
{
    reveal_strlit("Content-Length: ");
    reveal_strlit("\r\n\r\n");
    reveal_strlit("\n\n");
    is_ascii_chars_encode_utf8("Content-Length: "@);
    is_ascii_chars_encode_utf8("\r\n\r\n"@);
    is_ascii_chars_encode_utf8("\n\n"@);
    assert(end_of_headers() =~= seq![13u8, 10u8, 13u8, 10u8]);
    assert(short_end_of_headers() =~= seq![10u8, 10u8]);
}

/// What the headers of a frame are where the bytes go on to the end of the headers.
#[verifier::spinoff_prover]
proof fn lemma_headers_of_frame(before: Seq<u8>, length: Seq<u8>, after: Seq<u8>)
    requires
        decimal::all_digits(length),
        first_at(
            before + header_name() + length + end_of_headers() + after,
            header_name(),
            before.len() as int,
        ),
    ensures
        headers(before + header_name() + length + end_of_headers() + after) == Some(
            (length, (before.len() + 16 + length.len() + 4) as int),
        ),
{
    lemma_literals();
    let bytes = before + header_name() + length + end_of_headers() + after;
    lemma_position(bytes, header_name(), before.len() as int);
    let rest = bytes.skip(before.len() as int + 16);
    assert(rest =~= length + end_of_headers() + after);
    let end = length.len() as int;
    assert(rest.subrange(end, end + 4) =~= end_of_headers());
    assert forall|j: int| 0 <= j < end implies !#[trigger] occurs_at(rest, end_of_headers(), j) by {
        if occurs_at(rest, end_of_headers(), j) {
            assert(rest.subrange(j, j + 4)[0] == 13);
            assert(rest[j] == length[j]);
        }
    }
    lemma_position(rest, end_of_headers(), end);
    assert(rest.take(end) =~= length);
}

/// The length in the header of a frame is read back.
proof fn lemma_length_field(n: nat)
    requires
        n <= usize::MAX,
    ensures
        decimal::all_digits(decimal::decimal(n)),
        decimal::parsed(decimal::decimal(n)) == Some(n),
        valid_utf8(decimal::decimal(n)),
{
    decimal::lemma_decimal(n);
    decimal::law_parse_decimal(n);
    lemma_digits_utf8(decimal::decimal(n));
}

/// A frame among other bytes, taken apart.
proof fn lemma_frame_apart(before: Seq<u8>, message: Seq<char>, after: Seq<u8>)
    ensures
        before + frame(message) + after == before + header_name() + decimal::decimal(
            encode_utf8(message).len(),
        ) + end_of_headers() + (encode_utf8(message) + after),
        frame(message).len() - encode_utf8(message).len() == header_name().len()
            + decimal::decimal(encode_utf8(message).len()).len() + end_of_headers().len(),
{
    assert(before + frame(message) + after =~= before + header_name() + decimal::decimal(
        encode_utf8(message).len(),
    ) + end_of_headers() + (encode_utf8(message) + after));
}

/// The headers of a frame, among bytes in which its header's name comes first.
#[verifier::spinoff_prover]
proof fn lemma_frame_headers(before: Seq<u8>, message: Seq<char>, after: Seq<u8>)
    requires
        encode_utf8(message).len() <= usize::MAX,
        first_at(before + frame(message) + after, header_name(), before.len() as int),
    ensures
        headers(before + frame(message) + after) == Some(
            (
                decimal::decimal(encode_utf8(message).len()),
                before.len() + frame(message).len() - encode_utf8(message).len(),
            ),
        ),
{
    let content = encode_utf8(message);
    lemma_literals();
    lemma_length_field(content.len());
    lemma_frame_apart(before, message, after);
    lemma_headers_of_frame(before, decimal::decimal(content.len()), content + after);
}

/// A frame is read back as the message it was made of, whatever bytes follow it: they are left
/// in place. Bytes before the frame are skipped, as long as they do not bring the header's name
/// in earlier. The frame may be decoded wherever its end can be counted.
#[verifier::spinoff_prover]
pub proof fn law_decode_frame(before: Seq<u8>, message: Seq<char>, after: Seq<u8>)
    requires
        encode_utf8(message).len() <= usize::MAX,
        first_at(before + frame(message) + after, header_name(), before.len() as int),
    ensures
        decoded(before + frame(message) + after) == (Decoded::Frame {
            text: message,
            rest: after,
        }),
        before.len() + frame(message).len() <= usize::MAX ==> end_fits(
            before + frame(message) + after,
        ),
{
    let content = encode_utf8(message);
    let bytes = before + frame(message) + after;
    lemma_length_field(content.len());
    lemma_frame_headers(before, message, after);
    let start = before.len() + frame(message).len() - content.len();
    assert(bytes.subrange(start, start + content.len()) =~= content);
    assert(bytes.skip(start + content.len()) =~= after);
    encode_utf8_valid_utf8(message);
    encode_utf8_decode_utf8(message);
}

/// Digits are ASCII, so they are UTF-8.
proof fn lemma_digits_utf8(digits: Seq<u8>)
    requires
        decimal::all_digits(digits),
    ensures
        valid_utf8(digits),
{
    let chars = Seq::new(digits.len(), |i: int| digits[i] as char);
    assert(is_ascii_chars(chars));
    is_ascii_chars_encode_utf8(chars);
    assert forall|i: int| 0 <= i < digits.len() implies encode_utf8(chars)[i] == digits[i] by {
        assert(chars[i] as u8 == digits[i]);
    }
    assert(encode_utf8(chars) =~= digits);
    encode_utf8_valid_utf8(chars);
}

/// Encoding a message and decoding at once gives the message back, and leaves in the buffer
/// what came behind it. What could be encoded may be decoded.
#[verifier::spinoff_prover]
pub proof fn law_round_trip(message: Seq<char>, after: Seq<u8>)
    requires
        encode_utf8(message).len() <= usize::MAX,
    ensures
        decoded(frame(message) + after) == (Decoded::Frame { text: message, rest: after }),
        frame(message).len() <= usize::MAX ==> end_fits(frame(message) + after),
{
    let bytes = Seq::<u8>::empty() + frame(message) + after;
    assert(bytes =~= frame(message) + after);
    assert(bytes.subrange(0, header_name().len() as int) =~= header_name());
    law_decode_frame(Seq::empty(), message, after);
}

/// Neither end of the headers occurs in the length while the end is still arriving.
#[verifier::spinoff_prover]
proof fn lemma_headers_unfinished(length: Seq<u8>, received: int)
    requires
        decimal::all_digits(length),
        0 <= received < length.len() + 4,
    ensures
        forall|j: int|
            !#[trigger] occurs_at(
                (length + end_of_headers()).take(received),
                end_of_headers(),
                j,
            ),
        forall|j: int|
            !#[trigger] occurs_at(
                (length + end_of_headers()).take(received),
                short_end_of_headers(),
                j,
            ),
{
    lemma_literals();
    let n = length.len() as int;
    let rest = (length + end_of_headers()).take(received);
    assert forall|j: int| 0 <= j < received implies (#[trigger] rest[j] == 13 ==> j >= n) && (rest[j]
        == 10 ==> j == n + 1) by {
        if j < n {
            assert(rest[j] == length[j]);
        } else {
            assert(rest[j] == end_of_headers()[j - n]);
        }
    }
    assert forall|j: int| !#[trigger] occurs_at(rest, end_of_headers(), j) by {
        if occurs_at(rest, end_of_headers(), j) {
            let found = rest.subrange(j, j + 4);
            assert(found[0] == rest[j] && found[3] == rest[j + 3]);
            assert(found[0] == 13 && found[3] == 10);
        }
    }
    assert forall|j: int| !#[trigger] occurs_at(rest, short_end_of_headers(), j) by {
        if occurs_at(rest, short_end_of_headers(), j) {
            let found = rest.subrange(j, j + 2);
            assert(found[0] == rest[j] && found[1] == rest[j + 1]);
            assert(found[0] == 10 && found[1] == 10);
        }
    }
}

/// Bytes that end before the end of the headers have no headers.
#[verifier::spinoff_prover]
proof fn lemma_no_headers(length: Seq<u8>, received: int)
    requires
        decimal::all_digits(length),
        0 <= received < 16 + length.len() + 4,
    ensures
        headers((header_name() + length + end_of_headers()).take(received)) is None,
{
    lemma_literals();
    let bytes = (header_name() + length + end_of_headers()).take(received);
    if received < 16 {
        assert(forall|i: int| !occurs_at(bytes, header_name(), i));
    } else {
        assert(bytes.subrange(0, 16) =~= header_name());
        lemma_position(bytes, header_name(), 0);
        assert(bytes.skip(16) =~= (length + end_of_headers()).take(received - 16));
        lemma_headers_unfinished(length, received - 16);
    }
}

/// A frame whose content has not fully arrived is not read.
#[verifier::spinoff_prover]
proof fn lemma_content_unfinished(message: Seq<char>, arrived: int)
    requires
        encode_utf8(message).len() <= usize::MAX,
        0 <= arrived < encode_utf8(message).len(),
    ensures
        decoded(
            header_name() + decimal::decimal(encode_utf8(message).len()) + end_of_headers()
                + encode_utf8(message).take(arrived),
        ) == Decoded::Incomplete,
        frame(message).len() <= usize::MAX ==> end_fits(
            header_name() + decimal::decimal(encode_utf8(message).len()) + end_of_headers()
                + encode_utf8(message).take(arrived),
        ),
{
    let content = encode_utf8(message);
    let length = decimal::decimal(content.len());
    let after = content.take(arrived);
    let bytes = header_name() + length + end_of_headers() + after;
    lemma_literals();
    lemma_length_field(content.len());
    assert(bytes.subrange(0, 16) =~= header_name());
    assert(first_at(bytes, header_name(), 0));
    assert(bytes =~= Seq::<u8>::empty() + header_name() + length + end_of_headers() + after);
    lemma_headers_of_frame(Seq::empty(), length, after);
}

/// A frame that has not fully arrived is not read: the decoder waits for the rest of it. It may
/// be asked at any time.
#[verifier::spinoff_prover]
pub proof fn law_partial_frame(message: Seq<char>, received: int)
    requires
        encode_utf8(message).len() <= usize::MAX,
        0 <= received < frame(message).len(),
    ensures
        decoded(frame(message).take(received)) == Decoded::Incomplete,
        frame(message).len() <= usize::MAX ==> end_fits(frame(message).take(received)),
{
    let content = encode_utf8(message);
    let length = decimal::decimal(content.len());
    let front = header_name() + length + end_of_headers();
    lemma_literals();
    decimal::lemma_decimal(content.len());
    if received < front.len() {
        assert(frame(message).take(received) =~= front.take(received));
        lemma_no_headers(length, received);
    } else {
        let arrived = received - front.len();
        assert(frame(message).take(received) =~= front + content.take(arrived));
        lemma_content_unfinished(message, arrived);
    }
}

/// The frames of the messages, one after the other.
pub open spec fn stream(messages: Seq<Seq<char>>) -> Seq<u8>
    decreases messages.len(),
{
    if messages.len() == 0 {
        Seq::empty()
    } else {
        frame(messages.first()) + stream(messages.drop_first())
    }
}

/// What repeated decoding reads off a byte stream, `limit` messages at most.
pub open spec fn read_stream(bytes: Seq<u8>, limit: nat) -> Seq<Seq<char>>
    decreases limit,
{
    if limit == 0 {
        Seq::empty()
    } else {
        match decoded(bytes) {
            Decoded::Frame { text, rest } => seq![text] + read_stream(rest, (limit - 1) as nat),
            _ => Seq::empty(),
        }
    }
}

/// Whether repeated decoding may go on until `limit` messages are read, or no further message can
/// be: the end of each frame that it comes to can be counted.
pub open spec fn can_read_stream(bytes: Seq<u8>, limit: nat) -> bool
    decreases limit,
{
    limit > 0 ==> end_fits(bytes) && match decoded(bytes) {
        Decoded::Frame { text, rest } => can_read_stream(rest, (limit - 1) as nat),
        _ => true,
    }
}

/// Messages that are sent one after the other are received one by one, in order, and nothing
/// else is received, also when the last frame after them has not fully arrived. What could be
/// encoded may be decoded all the way.
#[verifier::spinoff_prover]
pub proof fn law_stream(messages: Seq<Seq<char>>, next: Seq<char>, received: int, limit: nat)
    requires
        forall|i: int|
            0 <= i < messages.len() ==> encode_utf8(#[trigger] messages[i]).len() <= usize::MAX,
        encode_utf8(next).len() <= usize::MAX,
        0 <= received < frame(next).len(),
        messages.len() <= limit,
    ensures
        read_stream(stream(messages) + frame(next).take(received), limit) == messages,
        (forall|i: int|
            0 <= i < messages.len() ==> frame(#[trigger] messages[i]).len() <= usize::MAX)
            && frame(next).len() <= usize::MAX ==> can_read_stream(
            stream(messages) + frame(next).take(received),
            limit,
        ),
    decreases messages.len(),
{
    let partial = frame(next).take(received);
    if messages.len() == 0 {
        assert(stream(messages) + partial =~= partial);
        law_partial_frame(next, received);
        assert(messages =~= Seq::empty());
    } else {
        let tail = messages.drop_first();
        assert forall|i: int| 0 <= i < tail.len() implies encode_utf8(#[trigger] tail[i]).len()
            <= usize::MAX by {
            assert(tail[i] == messages[i + 1]);
        }
        assert(encode_utf8(messages[0]).len() <= usize::MAX);
        law_stream(tail, next, received, (limit - 1) as nat);
        law_round_trip(messages[0], stream(tail) + partial);
        assert(stream(messages) + partial =~= frame(messages[0]) + (stream(tail) + partial));
        assert(seq![messages[0]] + tail =~= messages);
        if (forall|i: int|
            0 <= i < messages.len() ==> frame(#[trigger] messages[i]).len() <= usize::MAX)
            && frame(next).len() <= usize::MAX {
            assert(frame(messages[0]).len() <= usize::MAX);
            assert forall|i: int| 0 <= i < tail.len() implies frame(#[trigger] tail[i]).len()
                <= usize::MAX by {
                assert(tail[i] == messages[i + 1]);
            }
        }
    }
}

/// A pattern occurs at a position exactly if the bytes are something of that length, the pattern,
/// and something.
pub proof fn law_occurs_at(before: Seq<u8>, pattern: Seq<u8>, after: Seq<u8>, bytes: Seq<u8>, at: int)
    ensures
        occurs_at(before + pattern + after, pattern, before.len() as int),
        occurs_at(bytes, pattern, at) ==> 0 <= at <= bytes.len() && bytes == bytes.take(at)
            + pattern + bytes.skip(at + pattern.len()),
{
    let whole = before + pattern + after;
    assert(whole.subrange(before.len() as int, before.len() as int + pattern.len()) =~= pattern);
    if occurs_at(bytes, pattern, at) {
        assert(bytes =~= bytes.take(at) + bytes.subrange(at, at + pattern.len()) + bytes.skip(
            at + pattern.len(),
        ));
    }
}

/// A frame is the header's name, the number of bytes in decimal, an empty line, and the bytes.
pub proof fn law_frame(message: Seq<char>)
    ensures
        frame(message) == encode_utf8("Content-Length: "@) + decimal::decimal(
            encode_utf8(message).len(),
        ) + encode_utf8("\r\n\r\n"@) + encode_utf8(message),
{
}

/// Whether the bytes stand apart like this: the header's name comes first behind `before`, and
/// `end`, which ends the headers, comes first behind `length`. Two newlines end the headers only
/// if the longer end does not occur behind the name.
pub open spec fn stands_apart(
    before: Seq<u8>,
    length: Seq<u8>,
    end: Seq<u8>,
    tail: Seq<u8>,
) -> bool {
    let name = encode_utf8("Content-Length: "@);
    let long = encode_utf8("\r\n\r\n"@);
    let short = encode_utf8("\n\n"@);
    &&& occurs_at(before + name + length + end + tail, name, before.len() as int)
    &&& forall|at: int|
        0 <= at < before.len() ==> !#[trigger] occurs_at(
            before + name + length + end + tail,
            name,
            at,
        )
    &&& occurs_at(length + end + tail, end, length.len() as int)
    &&& forall|at: int|
        0 <= at < length.len() ==> !#[trigger] occurs_at(length + end + tail, end, at)
    &&& end == long || (end == short && forall|at: int|
        !#[trigger] occurs_at(length + end + tail, long, at))
}

proof fn lemma_no_position(bytes: Seq<u8>, pattern: Seq<u8>)
    requires
        forall|at: int| !#[trigger] occurs_at(bytes, pattern, at),
    ensures
        position(bytes, pattern) is None,
{
}

/// The headers of bytes that stand apart.
#[verifier::spinoff_prover]
proof fn lemma_headers_apart(before: Seq<u8>, length: Seq<u8>, end: Seq<u8>, tail: Seq<u8>)
    requires
        stands_apart(before, length, end, tail),
    ensures
        headers(before + encode_utf8("Content-Length: "@) + length + end + tail) == Some(
            (length, before.len() as int + 16 + length.len() + end.len()),
        ),
        end.len() == 2 || end.len() == 4,
{
    lemma_literals();
    let name = header_name();
    let bytes = before + name + length + end + tail;
    lemma_position(bytes, name, before.len() as int);
    let rest = bytes.skip(before.len() as int + 16);
    assert(rest =~= length + end + tail);
    let at = length.len() as int;
    lemma_position(rest, end, at);
    assert(rest.take(at) =~= length);
    if end != end_of_headers() {
        lemma_no_position(rest, end_of_headers());
    }
}

/// What the decoder makes of bytes in which the headers have arrived. What comes before the
/// header's name is skipped. A length that is no number is an error, and takes nothing from the
/// bytes. Otherwise as many bytes as the length says are waited for, and taken: as a message if
/// they are UTF-8, and else with an error. The rest stays. Decoding is possible wherever the end
/// of the content can be counted.
#[verifier::spinoff_prover]
pub proof fn law_decoded(before: Seq<u8>, length: Seq<u8>, end: Seq<u8>, tail: Seq<u8>)
    requires
        stands_apart(before, length, end, tail),
    ensures
        ({
            let bytes = before + encode_utf8("Content-Length: "@) + length + end + tail;
            let start = before.len() + 16 + length.len() + end.len();
            &&& !valid_utf8(length) ==> decoded(bytes) == (Decoded::BadLength {
                error: DecodeError::LengthNotUtf8,
            })
            &&& valid_utf8(length) && decimal::parsed(length) is None ==> decoded(bytes) == (
            Decoded::BadLength { error: DecodeError::LengthNotANumber })
            &&& valid_utf8(length) ==> (decimal::parsed(length) matches Some(n) ==> {
                &&& tail.len() < n ==> decoded(bytes) == Decoded::Incomplete
                &&& tail.len() >= n && valid_utf8(tail.take(n as int)) ==> decoded(bytes) == (
                Decoded::Frame {
                    text: decode_utf8(tail.take(n as int)),
                    rest: tail.skip(n as int),
                })
                &&& tail.len() >= n && !valid_utf8(tail.take(n as int)) ==> decoded(bytes) == (
                Decoded::BadContent { rest: tail.skip(n as int) })
            })
            &&& end_fits(bytes) <==> (decimal::parsed(length) matches Some(n) ==> start + n
                <= usize::MAX)
        }),
{
    lemma_literals();
    lemma_headers_apart(before, length, end, tail);
    let bytes = before + header_name() + length + end + tail;
    let start = (before.len() + 16 + length.len() + end.len()) as int;
    if let Some(n) = decimal::parsed(length) {
        if tail.len() >= n {
            assert(bytes.subrange(start, start + n) =~= tail.take(n as int));
            assert(bytes.skip(start + n) =~= tail.skip(n as int));
        }
    }
}

/// While the header's name, or what ends the headers, has not arrived, the decoder waits.
pub proof fn law_no_headers_yet(bytes: Seq<u8>, at: int)
    requires
        (forall|i: int| !#[trigger] occurs_at(bytes, encode_utf8("Content-Length: "@), i)) || (
        occurs_at(bytes, encode_utf8("Content-Length: "@), at) && (forall|i: int|
            0 <= i < at ==> !#[trigger] occurs_at(bytes, encode_utf8("Content-Length: "@), i)) && (
        forall|i: int|
            !#[trigger] occurs_at(bytes.skip(at + 16), encode_utf8("\r\n\r\n"@), i)) && (forall|
            i: int,
        |
            !#[trigger] occurs_at(bytes.skip(at + 16), encode_utf8("\n\n"@), i))),
    ensures
        decoded(bytes) == Decoded::Incomplete,
        end_fits(bytes),
{
    lemma_literals();
    if first_at(bytes, header_name(), at) {
        lemma_position(bytes, header_name(), at);
    }
}

} // verus!
