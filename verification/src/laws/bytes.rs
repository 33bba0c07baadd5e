//! Decoding bytes that arrive in chunks.

use vstd::prelude::*;
use vstd::utf8::*;

verus! {

/// Bytes are refused exactly if no continuation makes them valid UTF-8. Of bytes
/// that are not, all complete characters are decoded and no byte is lost: the text,
/// encoded again, and the bytes that stay pending are the bytes that came; and no
/// longer part of them is valid.
pub proof fn law_decoding(pending: Seq<u8>, chunk: Seq<u8>, n: int)
    ensures
        crate::utf8_stream::fed(pending, chunk) is Some <==> exists|tail: Seq<u8>|
            #[trigger] valid_utf8(pending + chunk + tail),
        crate::utf8_stream::fed(pending, chunk) matches Some((text, rest)) ==> {
            &&& encode_utf8(text) + rest == pending + chunk
            &&& 0 <= n <= (pending + chunk).len() && valid_utf8((pending + chunk).take(n)) ==> n
                <= encode_utf8(text).len()
        },
{
    let bytes = pending + chunk;
    crate::utf8_stream::law_accepts_beginnings_of_utf8(bytes);
    crate::utf8_stream::law_no_byte_is_lost(pending, chunk);
    crate::utf8_stream::lemma_valid_up_to(bytes);
    decode_utf8_encode_utf8(bytes.take(crate::utf8_stream::valid_up_to(bytes)));
    if 0 <= n <= bytes.len() && valid_utf8(bytes.take(n)) {
        crate::utf8_stream::law_valid_up_to_is_longest(bytes, n);
    }
}

/// Where bytes that are refused go wrong: what stands before is valid and no longer
/// part is, and the bad bytes are those that could still have become a character,
/// or the first one; with the byte behind them they no longer could.
pub proof fn law_place_of_an_error(bytes: Seq<u8>, n: int)
    requires
        !crate::utf8_stream::decodable(bytes),
    ensures
        ({
            let at = crate::utf8_stream::valid_up_to(bytes);
            let rest = bytes.skip(at);
            let k = crate::utf8_stream::invalid_len(crate::utf8_stream::undecoded(bytes));
            &&& 0 <= at < bytes.len()
            &&& valid_utf8(bytes.take(at))
            &&& 0 <= n <= bytes.len() && valid_utf8(bytes.take(n)) ==> n <= at
            &&& 1 <= k <= 3 && k <= rest.len()
            &&& k > 1 ==> crate::utf8_stream::decodable(rest.take(k))
            &&& k < rest.len() ==> !crate::utf8_stream::decodable(rest.take(k + 1))
            &&& k == rest.len() ==> !crate::utf8_stream::decodable(rest)
        }),
{
    crate::utf8_stream::lemma_valid_up_to(bytes);
    if 0 <= n <= bytes.len() && valid_utf8(bytes.take(n)) {
        crate::utf8_stream::law_valid_up_to_is_longest(bytes, n);
    }
    let rest = crate::utf8_stream::undecoded(bytes);
    let k = crate::utf8_stream::invalid_len(rest);
    crate::utf8_stream::lemma_scalar_ranges(rest);
    crate::utf8_stream::lemma_truncated_ranges(rest);
    lemma_beginning(rest, 2);
    lemma_beginning(rest, 3);
    lemma_beginning(rest, 4);
    lemma_beginning(rest, rest.len() as int);
    assert(rest.take(rest.len() as int) =~= rest);
}

/// A part from the start of bytes that begin with no character can be decoded
/// exactly if it is the beginning of one.
proof fn lemma_beginning(rest: Seq<u8>, n: int)
    requires
        rest.len() > 0,
        !valid_first_scalar(rest),
    ensures
        1 <= n <= rest.len() ==> {
            let part = rest.take(n);
            &&& crate::utf8_stream::decodable(part) <==> crate::utf8_stream::truncated_scalar(part)
            &&& crate::utf8_stream::truncated_scalar(part) <==> {
                &&& n < crate::utf8_stream::announced_len(rest[0])
                &&& crate::utf8_stream::in_ranges(
                    part,
                    crate::utf8_stream::announced_len(rest[0]),
                )
            }
        },
{
    if 1 <= n <= rest.len() {
        let part = rest.take(n);
        crate::utf8_stream::lemma_truncated_ranges(part);
        crate::utf8_stream::lemma_scalar_ranges(part);
        crate::utf8_stream::lemma_scalar_ranges(rest);
        assert(!valid_first_scalar(part));
        assert(crate::utf8_stream::undecoded(part) =~= part);
    }
}

/// The text of an error says how many bytes are bad and how many stand before them.
pub proof fn law_text_of_an_error(e: crate::utf8_stream::Utf8Error)
    ensures
        e.message_text() == "invalid utf-8 sequence of "@ + crate::text::decimal(e.error_len as nat)
            + " bytes from index "@ + crate::text::decimal(e.valid_up_to as nat),
{
}

} // verus!
