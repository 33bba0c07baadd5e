//! Decoding of UTF-8 that arrives in chunks. A chunk may end in the middle of a
//! character; the incomplete tail is carried over until the rest arrives.

use vstd::prelude::*;
use vstd::string::*;
use vstd::utf8::*;

verus! {

/// An opaque error of `core::str::from_utf8`.
#[verifier::external_type_specification]
#[verifier::external_body]
pub struct ExUtf8Error(core::str::Utf8Error);

/// `core::str::from_utf8` succeeds exactly on valid UTF-8, and then hands out the
/// string with those bytes. What the error holds is left unsaid.
pub assume_specification<'a>[ core::str::from_utf8 ](v: &'a [u8]) -> (r: Result<
    &'a str,
    core::str::Utf8Error,
>)
    ensures
        r is Ok <==> valid_utf8(v@),
        r matches Ok(s) ==> s.spec_bytes() == v@,
;

/// The length of the longest prefix that is valid UTF-8.
pub open spec fn valid_up_to(bytes: Seq<u8>) -> int
    decreases bytes.len(),
{
    if bytes.len() > 0 && valid_first_scalar(bytes) {
        length_of_first_scalar(bytes) + valid_up_to(pop_first_scalar(bytes))
    } else {
        0
    }
}

/// True when `tail` completes `rest` to a sequence that begins with one character
/// whose encoding is longer than `rest`.
pub open spec fn completes(rest: Seq<u8>, tail: Seq<u8>) -> bool {
    valid_first_scalar(rest + tail) && length_of_first_scalar(rest + tail) > rest.len()
}

/// True when the bytes are the beginning, and no more, of the encoding of one
/// character.
pub open spec fn truncated_scalar(rest: Seq<u8>) -> bool {
    rest.len() > 0 && exists|tail: Seq<u8>| completes(rest, tail)
}

/// The number of bytes at the start of `rest` that cannot become part of a
/// character: as many as still could have, before the first byte that ruled it
/// out, and at least one.
pub open spec fn invalid_len(rest: Seq<u8>) -> int {
    if rest.len() > 3 && truncated_scalar(rest.take(3)) {
        3
    } else if rest.len() > 2 && truncated_scalar(rest.take(2)) {
        2
    } else {
        1
    }
}

/// The bytes behind the longest valid prefix.
pub open spec fn undecoded(bytes: Seq<u8>) -> Seq<u8> {
    bytes.skip(valid_up_to(bytes))
}

/// True when the bytes are valid UTF-8 but for a last character that is not
/// complete yet.
pub open spec fn decodable(bytes: Seq<u8>) -> bool {
    undecoded(bytes).len() == 0 || truncated_scalar(undecoded(bytes))
}

/// What a chunk adds to the text and what stays pending behind it, or nothing if
/// the bytes can never become valid UTF-8.
pub open spec fn fed(pending: Seq<u8>, chunk: Seq<u8>) -> Option<(Seq<char>, Seq<u8>)> {
    let bytes = pending + chunk;
    if decodable(bytes) {
        Some((decode_utf8(bytes.take(valid_up_to(bytes))), undecoded(bytes)))
    } else {
        None
    }
}

/// A first character stays the first character whatever follows it.
proof fn lemma_first_scalar_extends(bytes: Seq<u8>, more: Seq<u8>)
    requires
        bytes.len() > 0,
        valid_first_scalar(bytes),
    ensures
        valid_first_scalar(bytes + more),
        length_of_first_scalar(bytes + more) == length_of_first_scalar(bytes),
        length_of_first_scalar(bytes) <= bytes.len(),
        decode_first_scalar(bytes + more) == decode_first_scalar(bytes),
        pop_first_scalar(bytes + more) == pop_first_scalar(bytes) + more,
{
}

/// A sequence that begins with a character no longer than `n` bytes begins with it
/// in its first `n` bytes.
proof fn lemma_first_scalar_restricts(bytes: Seq<u8>, n: int)
    requires
        0 <= n <= bytes.len(),
        valid_first_scalar(bytes),
        length_of_first_scalar(bytes) <= n,
    ensures
        valid_first_scalar(bytes.take(n)),
        length_of_first_scalar(bytes.take(n)) == length_of_first_scalar(bytes),
{
}

/// The longest valid prefix is a prefix, and valid.
pub proof fn lemma_valid_up_to(bytes: Seq<u8>)
    ensures
        0 <= valid_up_to(bytes) <= bytes.len(),
        valid_utf8(bytes.take(valid_up_to(bytes))),
        valid_up_to(bytes) == bytes.len() <==> valid_utf8(bytes),
        undecoded(bytes).len() > 0 ==> !valid_first_scalar(undecoded(bytes)),
    decreases bytes.len(),
{
    let n = valid_up_to(bytes);
    if bytes.len() > 0 && valid_first_scalar(bytes) {
        let k = length_of_first_scalar(bytes);
        let rest = pop_first_scalar(bytes);
        lemma_valid_up_to(rest);
        let m = valid_up_to(rest);
        assert(n == k + m);
        lemma_first_scalar_restricts(bytes, n);
        assert(pop_first_scalar(bytes.take(n)) == rest.take(m));
        assert(undecoded(bytes) == undecoded(rest));
    } else {
        assert(undecoded(bytes) == bytes);
    }
}

/// No prefix longer than the longest valid one is valid UTF-8.
pub proof fn law_valid_up_to_is_longest(bytes: Seq<u8>, n: int)
    requires
        0 <= n <= bytes.len(),
        valid_utf8(bytes.take(n)),
    ensures
        n <= valid_up_to(bytes),
    decreases bytes.len(),
{
    lemma_valid_up_to(bytes);
    let prefix = bytes.take(n);
    if n > 0 {
        lemma_first_scalar_extends(prefix, bytes.skip(n));
        assert(prefix + bytes.skip(n) == bytes);
        let k = length_of_first_scalar(bytes);
        assert(pop_first_scalar(prefix) == pop_first_scalar(bytes).take(n - k));
        law_valid_up_to_is_longest(pop_first_scalar(bytes), n - k);
    }
}

/// The longest valid prefix of a longer sequence: that of the shorter one, and
/// what becomes valid of the bytes behind it.
proof fn lemma_valid_up_to_extends(bytes: Seq<u8>, more: Seq<u8>)
    ensures
        valid_up_to(bytes + more) == valid_up_to(bytes) + valid_up_to(undecoded(bytes) + more),
        undecoded(bytes + more) == undecoded(undecoded(bytes) + more),
    decreases bytes.len(),
{
    lemma_valid_up_to(bytes);
    if bytes.len() > 0 && valid_first_scalar(bytes) {
        let rest = pop_first_scalar(bytes);
        lemma_first_scalar_extends(bytes, more);
        lemma_valid_up_to_extends(rest, more);
        lemma_valid_up_to(rest);
        assert(undecoded(bytes) == undecoded(rest));
    } else {
        assert(undecoded(bytes) == bytes);
    }
    lemma_valid_up_to(undecoded(bytes) + more);
    assert(undecoded(bytes + more) == undecoded(undecoded(bytes) + more));
}

/// Decoding one valid sequence behind another.
proof fn lemma_decode_concat(a: Seq<u8>, b: Seq<u8>)
    requires
        valid_utf8(a),
        valid_utf8(b),
    ensures
        valid_utf8(a + b),
        decode_utf8(a + b) == decode_utf8(a) + decode_utf8(b),
    decreases a.len(),
{
    valid_utf8_concat(a, b);
    if a.len() == 0 {
        assert(a + b == b);
        assert(decode_utf8(a) + decode_utf8(b) == decode_utf8(b));
    } else {
        lemma_first_scalar_extends(a, b);
        lemma_decode_concat(pop_first_scalar(a), b);
        let first = seq![decode_first_scalar(a) as char];
        assert(decode_utf8(a + b) == first + (decode_utf8(pop_first_scalar(a)) + decode_utf8(b)));
        assert(decode_utf8(a) == first + decode_utf8(pop_first_scalar(a)));
    }
}

/// Chunk boundaries do not matter: two chunks fed one after the other leave the
/// same text and the same pending bytes as both fed at once, and if the first is
/// refused so are both at once.
pub proof fn law_chunk_boundaries(pending: Seq<u8>, a: Seq<u8>, b: Seq<u8>)
    ensures
        fed(pending, a + b) == match fed(pending, a) {
            Some((text, rest)) => match fed(rest, b) {
                Some((more, last)) => Some((text + more, last)),
                None => None,
            },
            None => None,
        },
{
    let x = pending + a;
    let all = pending + (a + b);
    assert(all == x + b);
    lemma_valid_up_to(x);
    lemma_valid_up_to_extends(x, b);
    let rest = undecoded(x);
    if decodable(x) {
        lemma_valid_up_to(rest + b);
        let n = valid_up_to(x);
        let m = valid_up_to(rest + b);
        assert(all.take(n + m) == x.take(n) + (rest + b).take(m));
        lemma_decode_concat(x.take(n), (rest + b).take(m));
    } else {
        lemma_refused_stays_refused(rest, b);
        assert(undecoded(all) == rest + b);
    }
}

/// Bytes that no tail completes begin with no character whatever follows, and the
/// longer sequence cannot be completed either.
proof fn lemma_refused_stays_refused(rest: Seq<u8>, b: Seq<u8>)
    requires
        rest.len() > 0,
        !valid_first_scalar(rest),
        !truncated_scalar(rest),
    ensures
        !valid_first_scalar(rest + b),
        !truncated_scalar(rest + b),
        undecoded(rest + b) == rest + b,
{
    if valid_first_scalar(rest + b) {
        if length_of_first_scalar(rest + b) <= rest.len() {
            lemma_first_scalar_restricts(rest + b, rest.len() as int);
            assert((rest + b).take(rest.len() as int) == rest);
        } else {
            assert(completes(rest, b));
        }
    }
    if truncated_scalar(rest + b) {
        let tail = choose|tail: Seq<u8>| completes(rest + b, tail);
        assert(rest + b + tail == rest + (b + tail));
        assert(completes(rest, b + tail));
    }
    assert(undecoded(rest + b) == rest + b);
}

/// Nothing is lost: the text that a chunk adds, encoded again, and the bytes that
/// stay pending are the bytes that were pending and the chunk.
pub proof fn law_no_byte_is_lost(pending: Seq<u8>, chunk: Seq<u8>)
    ensures
        fed(pending, chunk) matches Some((text, rest)) ==> encode_utf8(text) + rest == pending
            + chunk,
{
    let bytes = pending + chunk;
    lemma_valid_up_to(bytes);
    decode_utf8_encode_utf8(bytes.take(valid_up_to(bytes)));
    assert(bytes.take(valid_up_to(bytes)) + undecoded(bytes) == bytes);
}

/// Bytes that stay pending are the beginning of a character, or none: with nothing
/// behind them they stay as they are.
pub proof fn lemma_pending_is_stable(pending: Seq<u8>, chunk: Seq<u8>)
    ensures
        fed(pending, chunk) matches Some((text, rest)) ==> fed(rest, Seq::empty()) == Some(
            (Seq::<char>::empty(), rest),
        ),
{
    let bytes = pending + chunk;
    lemma_valid_up_to(bytes);
    let rest = undecoded(bytes);
    assert(rest + Seq::<u8>::empty() == rest);
    assert(valid_up_to(rest) == 0);
    assert(undecoded(rest) == rest);
    assert(rest.take(0) == Seq::<u8>::empty());
}

/// Where no text can be decoded all bytes stay as they are.
pub proof fn lemma_no_text_decoded(bytes: Seq<u8>)
    requires
        decode_utf8(bytes.take(valid_up_to(bytes))).len() == 0,
    ensures
        undecoded(bytes) == bytes,
{
    lemma_valid_up_to(bytes);
    let prefix = bytes.take(valid_up_to(bytes));
    if prefix.len() > 0 {
        assert(decode_utf8(prefix).len() > 0);
    }
    assert(undecoded(bytes) == bytes);
}

/// What cannot be decoded stays what it is whatever follows.
pub proof fn lemma_error_is_kept(bytes: Seq<u8>, more: Seq<u8>)
    requires
        !decodable(bytes),
    ensures
        valid_up_to(bytes + more) == valid_up_to(bytes),
        invalid_len(undecoded(bytes + more)) == invalid_len(undecoded(bytes)),
{
    let rest = undecoded(bytes);
    lemma_valid_up_to(bytes);
    lemma_valid_up_to_extends(bytes, more);
    lemma_refused_stays_refused(rest, more);
    lemma_valid_up_to(rest + more);
    let long = rest + more;
    assert forall|k: int| rest.len() <= k <= long.len() implies !truncated_scalar(
        #[trigger] long.take(k),
    ) by {
        assert(long.take(k) == rest + more.take(k - rest.len()));
        lemma_refused_stays_refused(rest, more.take(k - rest.len()));
    }
    if rest.len() > 2 {
        assert(long.take(2) == rest.take(2));
    }
    if rest.len() > 3 {
        assert(long.take(3) == rest.take(3));
    }
}

/// Exactly the beginnings of valid UTF-8 are accepted: bytes can be fed if and
/// only if some continuation makes them valid.
pub proof fn law_accepts_beginnings_of_utf8(bytes: Seq<u8>)
    ensures
        decodable(bytes) <==> exists|tail: Seq<u8>| #[trigger] valid_utf8(bytes + tail),
{
    lemma_valid_up_to(bytes);
    let n = valid_up_to(bytes);
    let rest = undecoded(bytes);
    if decodable(bytes) {
        if rest.len() == 0 {
            assert(bytes + Seq::<u8>::empty() == bytes);
            assert(valid_utf8(bytes + Seq::<u8>::empty()));
        } else {
            let tail = choose|tail: Seq<u8>| completes(rest, tail);
            let k = length_of_first_scalar(rest + tail);
            let last = (rest + tail).take(k);
            lemma_first_scalar_restricts(rest + tail, k);
            assert(pop_first_scalar(last) == Seq::<u8>::empty());
            reveal_with_fuel(valid_utf8, 2);
            assert(valid_utf8(last));
            valid_utf8_concat(bytes.take(n), last);
            assert(bytes + tail.take(k - rest.len()) == bytes.take(n) + last);
        }
    } else {
        assert forall|tail: Seq<u8>| !(#[trigger] valid_utf8(bytes + tail)) by {
            lemma_refused_stays_refused(rest, tail);
            lemma_valid_up_to_extends(bytes, tail);
            lemma_valid_up_to(bytes + tail);
        }
    }
}

/// At most three bytes are ever pending.
pub proof fn law_pending_is_short(pending: Seq<u8>, chunk: Seq<u8>)
    ensures
        fed(pending, chunk) matches Some((text, rest)) ==> rest.len() <= 3,
{
}

/// The length of the encoding that a leading byte announces, or 0 for a byte that
/// leads no character.
pub open spec fn announced_len(b: u8) -> int {
    if b <= 0x7f {
        1
    } else if 0xc2 <= b <= 0xdf {
        2
    } else if 0xe0 <= b <= 0xef {
        3
    } else if 0xf0 <= b <= 0xf4 {
        4
    } else {
        0
    }
}

/// The least second byte that may follow a leading byte.
pub open spec fn second_low(b: u8) -> u8 {
    if b == 0xe0 {
        0xa0
    } else if b == 0xf0 {
        0x90
    } else {
        0x80
    }
}

/// The greatest second byte that may follow a leading byte.
pub open spec fn second_high(b: u8) -> u8 {
    if b == 0xed {
        0x9f
    } else if b == 0xf4 {
        0x8f
    } else {
        0xbf
    }
}

/// True when the bytes behind the leading one, as far as they are there, are in
/// the ranges that it allows.
pub open spec fn in_ranges(bytes: Seq<u8>, width: int) -> bool {
    &&& (width > 1 && bytes.len() > 1 ==> second_low(bytes[0]) <= bytes[1] <= second_high(
        bytes[0],
    ))
    &&& (width > 2 && bytes.len() > 2 ==> is_continuation_byte(bytes[2]))
    &&& (width > 3 && bytes.len() > 3 ==> is_continuation_byte(bytes[3]))
}

/// A sequence begins with a character exactly when its bytes are in the ranges
/// that its leading byte allows.
pub proof fn lemma_scalar_ranges(bytes: Seq<u8>)
    requires
        bytes.len() > 0,
    ensures
        valid_first_scalar(bytes) <==> {
            &&& announced_len(bytes[0]) > 0
            &&& announced_len(bytes[0]) <= bytes.len()
            &&& in_ranges(bytes, announced_len(bytes[0]))
        },
        valid_first_scalar(bytes) ==> length_of_first_scalar(bytes) == announced_len(bytes[0]),
{
    let b0 = bytes[0];
    if is_leading_byte_width_1(b0) {
        assert(not_surrogate(codepoint_width_1(b0))) by (bit_vector)
            requires
                0x00 <= b0 <= 0x7f,
        ;
    } else if is_leading_byte_width_2(b0) {
        if bytes.len() > 1 {
            let b1 = bytes[1];
            assert(is_leading_byte_width_2(b0) && is_continuation_byte(b1) ==> (not_overlong_encoding(
                codepoint_width_2(b0, b1),
                2,
            ) <==> 0xc2 <= b0) && not_surrogate(codepoint_width_2(b0, b1))) by (bit_vector);
        }
    } else if is_leading_byte_width_3(b0) {
        if bytes.len() > 2 {
            let b1 = bytes[1];
            let b2 = bytes[2];
            assert(is_leading_byte_width_3(b0) && is_continuation_byte(b1) && is_continuation_byte(b2)
                ==> (not_overlong_encoding(codepoint_width_3(b0, b1, b2), 3) <==> (b0 != 0xe0 || 0xa0
                <= b1)) && (not_surrogate(codepoint_width_3(b0, b1, b2)) <==> (b0 != 0xed || b1
                <= 0x9f))) by (bit_vector);
        }
    } else if is_leading_byte_width_4(b0) {
        if bytes.len() > 3 {
            let b1 = bytes[1];
            let b2 = bytes[2];
            let b3 = bytes[3];
            assert(is_leading_byte_width_4(b0) && is_continuation_byte(b1) && is_continuation_byte(b2)
                && is_continuation_byte(b3) ==> (not_overlong_encoding(
                codepoint_width_4(b0, b1, b2, b3),
                4,
            ) <==> (b0 <= 0xf4 && (b0 != 0xf0 || 0x90 <= b1) && (b0 != 0xf4 || b1 <= 0x8f))) && (
            not_overlong_encoding(codepoint_width_4(b0, b1, b2, b3), 4) ==> not_surrogate(
                codepoint_width_4(b0, b1, b2, b3),
            ))) by (bit_vector);
        }
    }
}

/// Bytes are a truncated character exactly when they are fewer than the leading
/// byte announces and those that are there are in range.
pub proof fn lemma_truncated_ranges(rest: Seq<u8>)
    requires
        rest.len() > 0,
    ensures
        truncated_scalar(rest) <==> {
            &&& rest.len() < announced_len(rest[0])
            &&& in_ranges(rest, announced_len(rest[0]))
        },
{
    let b0 = rest[0];
    let width = announced_len(b0);
    if truncated_scalar(rest) {
        let tail = choose|tail: Seq<u8>| completes(rest, tail);
        lemma_scalar_ranges(rest + tail);
    }
    if rest.len() < width && in_ranges(rest, width) {
        let low = second_low(b0);
        let tail = if rest.len() == 1 {
            seq![low, 0x80u8, 0x80u8]
        } else {
            seq![0x80u8, 0x80u8]
        };
        lemma_scalar_ranges(rest + tail);
        assert(completes(rest, tail));
    }
}

/// Bytes that cannot be decoded: where they begin and how many they are.
#[derive(Clone, Copy, Debug, PartialEq, Eq)]
pub struct Utf8Error {
    /// The length of the longest prefix that is valid UTF-8.
    pub valid_up_to: usize,
    /// The number of bytes behind it that belong to no character.
    pub error_len: usize,
}

/// What stands at the start of a byte sequence.
enum Head {
    /// A character of so many bytes.
    Scalar(usize),
    /// The beginning of a character, and nothing else.
    Truncated,
    /// So many bytes that belong to no character.
    Invalid(usize),
}

/// What stands in the bytes from index `at` on.
fn head_at(bytes: &Vec<u8>, at: usize) -> (r: Head)
    requires
        at < bytes@.len(),
    ensures
        match r {
            Head::Scalar(n) => {
                &&& valid_first_scalar(bytes@.skip(at as int))
                &&& length_of_first_scalar(bytes@.skip(at as int)) == n
                &&& at + n <= bytes@.len()
            },
            Head::Truncated => {
                &&& !valid_first_scalar(bytes@.skip(at as int))
                &&& truncated_scalar(bytes@.skip(at as int))
            },
            Head::Invalid(n) => {
                &&& !valid_first_scalar(bytes@.skip(at as int))
                &&& !truncated_scalar(bytes@.skip(at as int))
                &&& n == invalid_len(bytes@.skip(at as int))
            },
        },
{
    let ghost rest = bytes@.skip(at as int);
    proof {
        lemma_scalar_ranges(rest);
        lemma_truncated_ranges(rest);
        if rest.len() > 2 {
            lemma_truncated_ranges(rest.take(2));
        }
        if rest.len() > 3 {
            lemma_truncated_ranges(rest.take(3));
        }
    }
    let there: usize = bytes.len() - at;
    let b0: u8 = bytes[at];
    if b0 <= 0x7f {
        return Head::Scalar(1);
    }
    let width: usize = if 0xc2 <= b0 && b0 <= 0xdf {
        2
    } else if 0xe0 <= b0 && b0 <= 0xef {
        3
    } else if 0xf0 <= b0 && b0 <= 0xf4 {
        4
    } else {
        0
    };
    if width == 0 {
        return Head::Invalid(1);
    }
    if there == 1 {
        return Head::Truncated;
    }
    let low: u8 = if b0 == 0xe0 {
        0xa0
    } else if b0 == 0xf0 {
        0x90
    } else {
        0x80
    };
    let high: u8 = if b0 == 0xed {
        0x9f
    } else if b0 == 0xf4 {
        0x8f
    } else {
        0xbf
    };
    let b1: u8 = bytes[at + 1];
    if b1 < low || high < b1 {
        return Head::Invalid(1);
    }
    if width == 2 {
        return Head::Scalar(2);
    }
    if there == 2 {
        return Head::Truncated;
    }
    let b2: u8 = bytes[at + 2];
    if b2 < 0x80 || 0xbf < b2 {
        return Head::Invalid(2);
    }
    if width == 3 {
        return Head::Scalar(3);
    }
    if there == 3 {
        return Head::Truncated;
    }
    let b3: u8 = bytes[at + 3];
    if b3 < 0x80 || 0xbf < b3 {
        return Head::Invalid(3);
    }
    Head::Scalar(4)
}

/// The length of the longest valid prefix of the bytes, if they are decodable.
/// Otherwise what cannot be decoded.
fn scan(bytes: &Vec<u8>) -> (r: Result<usize, Utf8Error>)
    ensures
        match r {
            Ok(n) => decodable(bytes@) && n == valid_up_to(bytes@),
            Err(e) => {
                &&& !decodable(bytes@)
                &&& e.valid_up_to == valid_up_to(bytes@)
                &&& e.error_len == invalid_len(undecoded(bytes@))
            },
        },
{
    let n: usize = bytes.len();
    let mut at: usize = 0;
    assert(bytes@.skip(0) == bytes@);
    while at < n
        invariant
            at <= n,
            n == bytes@.len(),
            valid_up_to(bytes@) == at + valid_up_to(bytes@.skip(at as int)),
        decreases n - at,
    {
        let ghost rest = bytes@.skip(at as int);
        match head_at(bytes, at) {
            Head::Scalar(k) => {
                assert(pop_first_scalar(rest) == bytes@.skip(at + k));
                at += k;
            },
            Head::Truncated => {
                return Ok(at);
            },
            Head::Invalid(k) => {
                return Err(Utf8Error { valid_up_to: at, error_len: k });
            },
        }
    }
    Ok(n)
}

/// The text of the error for so many bytes, behind so many valid ones, that belong
/// to no character.
pub open spec fn error_text(error_len: nat, valid_up_to: nat) -> Seq<char> {
    "invalid utf-8 sequence of "@ + crate::text::decimal(error_len) + " bytes from index "@
        + crate::text::decimal(valid_up_to)
}

impl Utf8Error {
    /// The text of the error.
    pub open spec fn message_text(self) -> Seq<char> {
        error_text(self.error_len as nat, self.valid_up_to as nat)
    }

    /// The text of the error.
    pub fn message(&self) -> (r: String)
        ensures
            r@ == self.message_text(),
    {
        let mut r = "invalid utf-8 sequence of ".to_owned();
        r.append(crate::text::decimal_text(self.error_len).as_str());
        r.append(" bytes from index ");
        r.append(crate::text::decimal_text(self.valid_up_to).as_str());
        r
    }
}

/// Append a network chunk to the text buffer. Chunk boundaries fall on arbitrary
/// byte offsets, so a multi-byte character can straddle two chunks; the incomplete
/// tail is carried in `pending` until the rest arrives. Bytes that can never
/// become a character are an error, which leaves the text as it was and all bytes
/// pending.
pub fn push_chunk_utf8(buf: &mut String, pending: &mut Vec<u8>, chunk: &[u8]) -> (r: Result<
    (),
    Utf8Error,
>)
    ensures
        match fed(old(pending)@, chunk@) {
            Some((text, rest)) => {
                &&& r is Ok
                &&& final(buf)@ == old(buf)@ + text
                &&& final(pending)@ == rest
            },
            None => {
                let bytes = old(pending)@ + chunk@;
                &&& r matches Err(e)
                &&& e.valid_up_to == valid_up_to(bytes)
                &&& e.error_len == invalid_len(undecoded(bytes))
                &&& *final(buf) == *old(buf)
                &&& final(pending)@ == bytes
            },
        },
{
    pending.extend_from_slice(chunk);
    let ghost bytes = old(pending)@ + chunk@;
    assert(pending@ == bytes);
    proof {
        lemma_valid_up_to(bytes);
    }
    match scan(pending) {
        Ok(n) => {
            let rest = pending.split_off(n);
            assert(pending@ == bytes.take(n as int));
            assert(rest@ == undecoded(bytes));
            match core::str::from_utf8(pending.as_slice()) {
                Ok(text) => {
                    proof {
                        encode_utf8_decode_utf8(text@);
                    }
                    buf.append(text);
                },
                Err(_) => {
                    assert(false);
                },
            }
            *pending = rest;
            Ok(())
        },
        Err(e) => Err(e),
    }
}

} // verus!
