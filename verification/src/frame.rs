//! The frame decoder: newline-terminated text frames in a byte buffer.
//!
//! A frame runs from the start of the buffer up to and including the first
//! terminator byte, and must be valid UTF-8. Decoding keeps no state between
//! calls: it looks at a buffer and says what its front holds.

use vstd::prelude::*;
use vstd::slice::slice_subrange;
use vstd::string::StringSliceAdditionalSpecFns;
use vstd::utf8::{decode_utf8, encode_scalar, encode_utf8, valid_utf8};

verus! {

/// The byte that ends a frame on the wire.
pub const TERMINATOR: u8 = 0x0A;

/// `n` is the offset of the first terminator in `bytes`.
pub open spec fn first_terminator_at(bytes: Seq<u8>, n: int) -> bool {
    &&& 0 <= n < bytes.len()
    &&& bytes[n] == TERMINATOR
    &&& forall|i: int| 0 <= i < n ==> bytes[i] != TERMINATOR
}

/// `bytes` holds at least one terminator.
pub open spec fn has_terminator(bytes: Seq<u8>) -> bool {
    exists|n: int| first_terminator_at(bytes, n)
}

/// The length of the first frame in `bytes`, its terminator included.
/// Meaningful only where `has_terminator(bytes)`.
pub open spec fn frame_len(bytes: Seq<u8>) -> int {
    (choose|n: int| first_terminator_at(bytes, n)) + 1
}

/// What the front of a buffer holds.
#[derive(Debug, Clone, PartialEq, Eq)]
pub enum Decoded {
    /// No terminator yet: more bytes are needed.
    NoFrame,
    /// A complete frame: the number of bytes it takes from the front of the
    /// buffer, and its text with the terminator at the end.
    Frame { consumed: usize, text: String },
    /// The bytes up to the first terminator are not valid UTF-8.
    InvalidEncoding,
}

/// The mathematical value of a [`Decoded`].
pub enum DecodedView {
    NoFrame,
    Frame { consumed: int, text: Seq<char> },
    InvalidEncoding,
}

impl View for Decoded {
    type V = DecodedView;

    open spec fn view(&self) -> DecodedView {
        match *self {
            Decoded::NoFrame => DecodedView::NoFrame,
            Decoded::Frame { consumed, text } => DecodedView::Frame {
                consumed: consumed as int,
                text: text@,
            },
            Decoded::InvalidEncoding => DecodedView::InvalidEncoding,
        }
    }
}

/// What decoding the front of `bytes` gives.
pub open spec fn decode_spec(bytes: Seq<u8>) -> DecodedView {
    if !has_terminator(bytes) {
        DecodedView::NoFrame
    } else if valid_utf8(bytes.take(frame_len(bytes))) {
        DecodedView::Frame {
            consumed: frame_len(bytes),
            text: decode_utf8(bytes.take(frame_len(bytes))),
        }
    } else {
        DecodedView::InvalidEncoding
    }
}

/// The first terminator of a buffer is where any witness says it is.
pub proof fn lemma_first_terminator_unique(bytes: Seq<u8>, n: int)
    requires
        first_terminator_at(bytes, n),
    ensures
        has_terminator(bytes),
        frame_len(bytes) == n + 1,
{
    let m = choose|m: int| first_terminator_at(bytes, m);
    assert(first_terminator_at(bytes, m));
    if m < n {
        assert(bytes[m] != TERMINATOR);
    } else if n < m {
        assert(bytes[n] != TERMINATOR);
    }
}

/// Where a buffer holds a terminator, its first frame ends at the first
/// terminator, is not empty and lies inside the buffer.
pub proof fn lemma_frame_len_bounds(bytes: Seq<u8>)
    requires
        has_terminator(bytes),
    ensures
        first_terminator_at(bytes, frame_len(bytes) - 1),
        1 <= frame_len(bytes) <= bytes.len(),
{
}

/// `frame` is one whole frame of text: valid UTF-8 whose only terminator is
/// its last byte.
pub open spec fn is_frame(frame: Seq<u8>) -> bool {
    &&& first_terminator_at(frame, frame.len() - 1)
    &&& valid_utf8(frame)
}

/// A buffer that starts with a whole frame decodes as that frame, whatever
/// follows it, and what follows is what is left.
pub proof fn lemma_leading_frame_decodes(frame: Seq<u8>, rest: Seq<u8>)
    requires
        is_frame(frame),
    ensures
        decode_spec(frame + rest) == (DecodedView::Frame {
            consumed: frame.len() as int,
            text: decode_utf8(frame),
        }),
        (frame + rest).skip(frame.len() as int) == rest,
{
    let buf = frame + rest;
    lemma_first_terminator_unique(buf, frame.len() - 1);
    assert(buf.take(frame.len() as int) =~= frame);
    assert(buf.skip(frame.len() as int) =~= rest);
}

/// The bytes that encode one character hold a terminator only where the
/// character is the line feed.
proof fn lemma_scalar_has_no_terminator(c: char)
    requires
        c != '\n',
    ensures
        !encode_scalar(c as u32).contains(TERMINATOR),
{
    let v = c as u32;
    vstd::utf8::char_is_scalar(c);
    if v == 0x0A {
        vstd::utf8::char_u32_cast(c, v);
        vstd::utf8::char_u32_cast('\n', v);
    }
    assert(v <= 0x7F ==> ((v & 0x7F) as u8 == 0x0Au8 <==> v == 0x0A)) by (bit_vector);
    assert((0xC0u8 | ((v >> 6) & 0x1F) as u8) != 0x0Au8) by (bit_vector);
    assert((0xE0u8 | ((v >> 12) & 0x0F) as u8) != 0x0Au8) by (bit_vector);
    assert((0xF0u8 | ((v >> 18) & 0x7) as u8) != 0x0Au8) by (bit_vector);
    assert((0x80u8 | (v & 0x3F) as u8) != 0x0Au8) by (bit_vector);
    assert((0x80u8 | ((v >> 6) & 0x3F) as u8) != 0x0Au8) by (bit_vector);
    assert((0x80u8 | ((v >> 12) & 0x3F) as u8) != 0x0Au8) by (bit_vector);
}

/// Text without a line feed is encoded without a terminator byte.
pub proof fn lemma_text_has_no_terminator(text: Seq<char>)
    requires
        !text.contains('\n'),
    ensures
        !encode_utf8(text).contains(TERMINATOR),
    decreases text.len(),
{
    if text.len() > 0 {
        let rest = text.drop_first();
        assert(text.contains(text[0]));
        assert forall|i: int| 0 <= i < rest.len() implies rest[i] != '\n' by {
            assert(text.contains(text[i + 1]));
        }
        lemma_scalar_has_no_terminator(text[0]);
        lemma_text_has_no_terminator(rest);
        let head = encode_scalar(text[0] as u32);
        let tail = encode_utf8(rest);
        assert forall|j: int| 0 <= j < (head + tail).len() implies (head + tail)[j]
            != TERMINATOR by {
            if j < head.len() {
                assert(head.contains(head[j]));
            } else {
                assert(tail.contains(tail[j - head.len()]));
            }
        }
    }
}

/// The encoding of a text followed by a line feed is the encoding of the
/// text followed by the terminator.
pub proof fn lemma_encode_line(text: Seq<char>)
    ensures
        encode_utf8(text.push('\n')) == encode_utf8(text).push(TERMINATOR),
    decreases text.len(),
{
    let line = text.push('\n');
    if text.len() == 0 {
        let v = '\n' as u32;
        assert(v == 0x0A);
        assert((v & 0x7F) as u8 == 0x0Au8) by (bit_vector)
            requires
                v == 0x0A,
        ;
        assert(line.drop_first() =~= Seq::<char>::empty());
        assert(encode_utf8(line.drop_first()) =~= Seq::<u8>::empty());
        assert(encode_utf8(line) =~= seq![TERMINATOR]);
        assert(encode_utf8(text) =~= Seq::<u8>::empty());
        assert(encode_utf8(text).push(TERMINATOR) =~= seq![TERMINATOR]);
    } else {
        lemma_encode_line(text.drop_first());
        assert(line.drop_first() =~= text.drop_first().push('\n'));
        assert(line[0] == text[0]);
        assert(encode_utf8(line) =~= encode_utf8(text).push(TERMINATOR));
    }
}

/// A line of text that holds no line feed, followed by one terminator,
/// decodes as exactly one frame: its text is the line with the line feed at
/// its end, it takes every byte, and nothing is left to decode.
pub proof fn lemma_single_line_decodes_whole(text: Seq<char>)
    requires
        !text.contains('\n'),
    ensures
        ({
            let wire = encode_utf8(text).push(TERMINATOR);
            &&& decode_spec(wire) == DecodedView::Frame {
                consumed: wire.len() as int,
                text: text.push('\n'),
            }
            &&& wire.len() == encode_utf8(text).len() + 1
            &&& wire.skip(wire.len() as int) == Seq::<u8>::empty()
            &&& decode_spec(wire.skip(wire.len() as int)) == DecodedView::NoFrame
        }),
{
    let bytes = encode_utf8(text);
    let wire = bytes.push(TERMINATOR);
    lemma_text_has_no_terminator(text);
    lemma_encode_line(text);
    vstd::utf8::encode_utf8_valid_utf8(text.push('\n'));
    vstd::utf8::encode_utf8_decode_utf8(text.push('\n'));
    assert forall|i: int| 0 <= i < bytes.len() implies wire[i] != TERMINATOR by {
        assert(bytes.contains(bytes[i]));
    }
    lemma_first_terminator_unique(wire, bytes.len() as int);
    assert(wire.take(wire.len() as int) =~= wire);
    assert(wire.skip(wire.len() as int) =~= Seq::<u8>::empty());
    assert(!has_terminator(Seq::<u8>::empty()));
}

/// `core::str::Utf8Error`, the error of `core::str::from_utf8`. Nothing of its
/// contents is used.
#[verifier::external_type_specification]
#[verifier::external_body]
pub struct ExUtf8Error(core::str::Utf8Error);

/// `core::str::from_utf8`: succeeds exactly on valid UTF-8, and the string
/// slice it returns is made of the very bytes it was given.
pub assume_specification[ core::str::from_utf8 ](v: &[u8]) -> (r: Result<
    &str,
    core::str::Utf8Error,
>)
    ensures
        r is Ok <==> valid_utf8(v@),
        r matches Ok(s) ==> s.spec_bytes() == v@,
;

/// The line codec: frames are lines of text, each ended by [`TERMINATOR`].
#[derive(Debug, Clone, Copy, Default)]
pub struct LineCodec;

impl LineCodec {
    /// Looks for one frame at the front of `buf`.
    ///
    /// Scans for the first terminator. Without one the answer is `NoFrame`,
    /// whatever the bytes are. With one at offset `n`, the frame is the first
    /// `n + 1` bytes: valid UTF-8 gives `Frame` with that count and the decoded
    /// text, terminator included; anything else gives `InvalidEncoding`.
    pub fn decode(&self, buf: &[u8]) -> (r: Decoded)
        ensures
            r@ == decode_spec(buf@),
    {
        let mut i: usize = 0;
        while i < buf.len() && buf[i] != TERMINATOR
            invariant
                i <= buf.len(),
                forall|k: int| 0 <= k < i ==> buf@[k] != TERMINATOR,
            decreases buf.len() - i,
        {
            i += 1;
        }
        if i == buf.len() {
            assert(!has_terminator(buf@)) by {
                if has_terminator(buf@) {
                    let n = choose|n: int| first_terminator_at(buf@, n);
                    assert(buf@[n] == TERMINATOR);
                }
            }
            return Decoded::NoFrame;
        }
        proof {
            lemma_first_terminator_unique(buf@, i as int);
        }
        let frame = slice_subrange(buf, 0, i + 1);
        assert(frame@ == buf@.take(frame_len(buf@)));
        match core::str::from_utf8(frame) {
            Ok(s) => {
                proof {
                    vstd::utf8::encode_utf8_decode_utf8(s@);
                }
                Decoded::Frame { consumed: i + 1, text: s.to_owned() }
            },
            Err(_) => Decoded::InvalidEncoding,
        }
    }

    /// Encoding is not supported: the call succeeds, drops `msg` and leaves
    /// `buf` as it was, so that nothing is ever put on the wire.
    pub fn encode(&self, msg: String, buf: &mut Vec<u8>)
        ensures
            final(buf)@ == old(buf)@,
    {
    }
}

} // verus!
