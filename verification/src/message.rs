//! Splitting a message into three chunks and encoding each one.

use vstd::prelude::*;
use vstd::string::StringSliceAdditionalSpecFns;
use crate::field_literal::bytes_to_field_decimal_literal;
use crate::field_literal::chunk_literal;
use crate::field_literal::chunk_prefix;

verus! {

/// The bytes the encoder keeps: the first 93 (all of them when the message
/// is shorter). Anything beyond is silently discarded.
pub open spec fn kept_bytes(b: Seq<u8>) -> Seq<u8> {
    if b.len() > 93 {
        b.take(93)
    } else {
        b
    }
}

/// `n`, clamped to at most `len`.
pub open spec fn clamp_to(n: int, len: int) -> int {
    if n <= len {
        n
    } else {
        len
    }
}

/// Chunk `i` (0, 1 or 2) of a message: the bytes of the kept prefix between
/// positions `31 * i` and `31 * i + 31`. A chunk past the end is empty.
pub open spec fn message_chunk(b: Seq<u8>, i: int) -> Seq<u8> {
    let t = kept_bytes(b);
    t.subrange(clamp_to(31 * i, t.len() as int), clamp_to(31 * i + 31, t.len() as int))
}

/// What the encoder returns for the byte sequence `b`: the field literals of
/// its three chunks, in order.
pub open spec fn message_literals(b: Seq<u8>) -> (Seq<char>, Seq<char>, Seq<char>) {
    (chunk_literal(message_chunk(b, 0)),
     chunk_literal(message_chunk(b, 1)),
     chunk_literal(message_chunk(b, 2)))
}

/// Only the first 93 bytes of a message affect its literals: encoding `b`
/// gives the same result as encoding its kept prefix, whatever follows it.
pub proof fn lemma_prefix_determines_literals(b: Seq<u8>)
    ensures
        message_literals(b) == message_literals(kept_bytes(b)),
{
    assert(kept_bytes(kept_bytes(b)) == kept_bytes(b));
}

/// Truncation is idempotent: once a message has at least 93 bytes, appending
/// further bytes leaves the literals unchanged.
pub proof fn lemma_truncation_idempotent(b: Seq<u8>, extra: Seq<u8>)
    requires
        b.len() >= 93,
    ensures
        message_literals(b + extra) == message_literals(b),
{
    assert(kept_bytes(b + extra) =~= kept_bytes(b));
}

/// A message of at most 93 bytes is kept whole: its literals are those of
/// three chunk ranges of the message itself, and no byte of it is discarded,
/// so the result depends on its bytes alone.
pub proof fn lemma_short_message_kept_whole(b: Seq<u8>)
    requires
        b.len() <= 93,
    ensures
        kept_bytes(b) == b,
        message_literals(b) == (
            chunk_literal(b.subrange(0, clamp_to(31, b.len() as int))),
            chunk_literal(b.subrange(clamp_to(31, b.len() as int), clamp_to(62, b.len() as int))),
            chunk_literal(b.subrange(clamp_to(62, b.len() as int), b.len() as int)),
        ),
{
}

/// Encode a byte sequence into exactly three field literals: the bytes are
/// truncated to 93, split into three chunks of at most 31 bytes, and each
/// chunk is encoded independently. Missing chunks are empty and encode to
/// `0field`.
pub fn bytes_to_3_field_literals(bytes: &[u8]) -> (r: (String, String, String))
    ensures
        (r.0@, r.1@, r.2@) == message_literals(bytes@),
{
    let kept: &[u8] = if bytes.len() > 93 {
        vstd::slice::slice_subrange(bytes, 0, 93)
    } else {
        bytes
    };
    let len = kept.len();
    let end0 = if len < 31 { len } else { 31 };
    let end1 = if len < 62 { len } else { 62 };
    let chunk0 = vstd::slice::slice_subrange(kept, 0, end0);
    let chunk1 = vstd::slice::slice_subrange(kept, end0, end1);
    let chunk2 = vstd::slice::slice_subrange(kept, end1, len);
    proof {
        assert(chunk_prefix(chunk0@) == chunk0@);
        assert(chunk_prefix(chunk1@) == chunk1@);
        assert(chunk_prefix(chunk2@) == chunk2@);
        assert(chunk0@ == message_chunk(bytes@, 0));
        assert(chunk1@ == message_chunk(bytes@, 1));
        assert(chunk2@ == message_chunk(bytes@, 2));
    }
    let f0 = bytes_to_field_decimal_literal(chunk0);
    let f1 = bytes_to_field_decimal_literal(chunk1);
    let f2 = bytes_to_field_decimal_literal(chunk2);
    (f0, f1, f2)
}

/// Encode a UTF-8 message into exactly three field literals, from the first
/// 93 bytes of its UTF-8 encoding.
pub fn string_to_3_field_literals(msg: &str) -> (r: (String, String, String))
    ensures
        (r.0@, r.1@, r.2@) == message_literals(msg.spec_bytes()),
{
    bytes_to_3_field_literals(msg.as_bytes())
}

} // verus!
