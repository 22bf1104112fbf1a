//! Decoding of the module's replies.
//!
//! A reply is ASCII text: the marker `>`, then fields of seven bytes each
//! with nothing between them, then one closing byte. The reply to a read of
//! all channels has sixteen fields and 114 bytes; the reply to a read of one
//! channel has one field and 9 bytes.
use crate::error::Error;
use crate::literal::{is_decimal, lemma_literal_is_ascii};
use crate::reading::{Reading, FIELD_LEN};
use vstd::prelude::*;
use vstd::utf8::{
    is_leading_byte_width_1, partial_valid_partial_invalid_utf8, partial_valid_utf8,
    partial_valid_utf8_extend_ascii_block, valid_first_scalar, valid_utf8,
};

verus! {

/// The byte that opens every reply, `>`.
pub const MARKER: u8 = 0x3e;

/// The number of channels of the module.
pub const CHANNELS: usize = 16;

/// The length of the reply to a read of all channels.
pub const ALL_LEN: usize = 114;

/// The length of the reply to a read of one channel.
pub const ONE_LEN: usize = 9;

/// The highest byte that is an ASCII character.
pub const ASCII_MAX: u8 = 0x7f;

/// The bytes of field `i` of a reply: seven bytes from offset `1 + 7 * i`.
pub open spec fn field(bytes: Seq<u8>, i: int) -> Seq<u8> {
    bytes.subrange(1 + FIELD_LEN * i, 1 + FIELD_LEN * (i + 1))
}

/// The reply has `len` bytes and opens with the marker.
pub open spec fn is_framed(bytes: Seq<u8>, len: int) -> bool {
    bytes.len() == len && bytes[0] == MARKER
}

/// Every byte is an ASCII character, so that the bytes are text.
pub open spec fn is_ascii_text(bytes: Seq<u8>) -> bool {
    forall|i: int| 0 <= i < bytes.len() ==> #[trigger] bytes[i] <= ASCII_MAX
}

/// Every one of the sixteen fields of the reply is a decimal literal.
pub open spec fn all_fields_decimal(bytes: Seq<u8>) -> bool {
    forall|i: int| 0 <= i < CHANNELS ==> is_decimal(#[trigger] field(bytes, i))
}

/// What a reply to a read of all channels decodes to: its sixteen fields in
/// the order of the channels, or the reason why it is refused.
pub open spec fn decode_spec(bytes: Seq<u8>) -> Result<Seq<Seq<u8>>, Error> {
    if !is_framed(bytes, ALL_LEN as int) {
        Err(Error::ResponseError)
    } else if !is_ascii_text(bytes) || !all_fields_decimal(bytes) {
        Err(Error::DecodeError)
    } else {
        Ok(Seq::new(CHANNELS as nat, |i: int| field(bytes, i)))
    }
}

/// What a reply to a read of one channel decodes to: its field, or the
/// reason why it is refused.
pub open spec fn decode_chan_spec(bytes: Seq<u8>) -> Result<Seq<u8>, Error> {
    if !is_framed(bytes, ONE_LEN as int) {
        Err(Error::ResponseError)
    } else if !is_ascii_text(bytes) || !is_decimal(field(bytes, 0)) {
        Err(Error::DecodeError)
    } else {
        Ok(field(bytes, 0))
    }
}

/// The texts of sixteen readings, in order.
pub open spec fn texts(readings: [Reading; CHANNELS]) -> Seq<Seq<u8>> {
    Seq::new(CHANNELS as nat, |i: int| readings@[i]@)
}

/// Whether every byte is an ASCII character.
pub fn is_ascii(bytes: &[u8]) -> (ok: bool)
    ensures
        ok == is_ascii_text(bytes@),
{
    let mut i: usize = 0;
    while i < bytes.len()
        invariant
            i <= bytes@.len(),
            forall|j: int| 0 <= j < i ==> #[trigger] bytes@[j] <= ASCII_MAX,
        decreases bytes@.len() - i,
    {
        if bytes[i] > ASCII_MAX {
            return false;
        }
        i = i + 1;
    }
    true
}

/// Decodes the reply to a read of all channels.
///
/// A reply that has not 114 bytes or does not open with the marker is refused
/// with `ResponseError`, whatever else it holds. A framed reply must be
/// ASCII text, and every field of it a decimal literal: a byte that is no
/// text, or one field that is no literal, refuses the whole reply with
/// `DecodeError`. Otherwise the sixteen readings come back, the one of
/// channel `i` at index `i`.
pub fn decode(bytes: &[u8]) -> (r: Result<[Reading; CHANNELS], Error>)
    ensures
        match r {
            Ok(readings) => decode_spec(bytes@) == Ok::<Seq<Seq<u8>>, Error>(texts(readings)),
            Err(e) => decode_spec(bytes@) == Err::<Seq<Seq<u8>>, Error>(e),
        },
{
    if bytes.len() != ALL_LEN || bytes[0] != MARKER {
        return Err(Error::ResponseError);
    }
    if !is_ascii(bytes) {
        return Err(Error::DecodeError);
    }
    let first = match Reading::from_bytes(&bytes[1..1 + FIELD_LEN]) {
        Some(reading) => reading,
        None => {
            assert(!is_decimal(field(bytes@, 0)));
            return Err(Error::DecodeError);
        },
    };
    let mut readings = [first; CHANNELS];
    let mut i: usize = 1;
    while i < CHANNELS
        invariant
            1 <= i <= CHANNELS,
            is_framed(bytes@, ALL_LEN as int),
            is_ascii_text(bytes@),
            forall|j: int| 0 <= j < i ==> is_decimal(#[trigger] field(bytes@, j)),
            forall|j: int| 0 <= j < i ==> (#[trigger] readings@[j])@ == field(bytes@, j),
        decreases CHANNELS - i,
    {
        let from = 1 + FIELD_LEN * i;
        match Reading::from_bytes(&bytes[from..from + FIELD_LEN]) {
            Some(reading) => {
                readings[i] = reading;
            },
            None => {
                assert(!is_decimal(field(bytes@, i as int)));
                return Err(Error::DecodeError);
            },
        }
        i = i + 1;
    }
    assert(texts(readings) =~= Seq::new(CHANNELS as nat, |i: int| field(bytes@, i)));
    Ok(readings)
}

/// Decodes the reply to a read of one channel.
///
/// A reply that has not 9 bytes or does not open with the marker is refused
/// with `ResponseError`; a framed one that is no ASCII text, or whose field
/// is no decimal literal, with `DecodeError`. Otherwise the reading comes
/// back.
pub fn decode_chan(bytes: &[u8]) -> (r: Result<Reading, Error>)
    ensures
        match r {
            Ok(reading) => decode_chan_spec(bytes@) == Ok::<Seq<u8>, Error>(reading@),
            Err(e) => decode_chan_spec(bytes@) == Err::<Seq<u8>, Error>(e),
        },
{
    if bytes.len() != ONE_LEN || bytes[0] != MARKER {
        return Err(Error::ResponseError);
    }
    if !is_ascii(bytes) {
        return Err(Error::DecodeError);
    }
    match Reading::from_bytes(&bytes[1..1 + FIELD_LEN]) {
        Some(reading) => Ok(reading),
        None => Err(Error::DecodeError),
    }
}

/// Every field of `fields` has seven bytes.
pub open spec fn all_seven_long(fields: Seq<Seq<u8>>) -> bool {
    forall|i: int| 0 <= i < fields.len() ==> (#[trigger] fields[i]).len() == FIELD_LEN
}

/// The reply that carries `fields`: the marker, the fields one behind the
/// other, and the closing byte `end`.
pub open spec fn reply_of(fields: Seq<Seq<u8>>, end: u8) -> Seq<u8> {
    seq![MARKER] + fields.flatten() + seq![end]
}

/// Fields of seven bytes, put one behind the other, take seven bytes each.
proof fn lemma_joined_len(fields: Seq<Seq<u8>>)
    requires
        all_seven_long(fields),
    ensures
        fields.flatten().len() == 7 * fields.len(),
    decreases fields.len(),
{
    if fields.len() > 0 {
        let rest = fields.drop_first();
        assert forall|i: int| 0 <= i < rest.len() implies (#[trigger] rest[i]).len() == 7 by {}
        lemma_joined_len(rest);
    }
}

/// Fields of seven bytes, put one behind the other, are found again seven
/// bytes apart.
proof fn lemma_joined_field(fields: Seq<Seq<u8>>, i: int)
    requires
        all_seven_long(fields),
        0 <= i < fields.len(),
    ensures
        fields.flatten().len() == 7 * fields.len(),
        fields.flatten().subrange(7 * i, 7 * i + 7) == fields[i],
    decreases fields.len(),
{
    lemma_joined_len(fields);
    let rest = fields.drop_first();
    assert forall|j: int| 0 <= j < rest.len() implies (#[trigger] rest[j]).len() == 7 by {}
    lemma_joined_len(rest);
    if i > 0 {
        lemma_joined_field(rest, i - 1);
        assert(fields.flatten().subrange(7 * i, 7 * i + 7) =~= rest.flatten().subrange(
            7 * (i - 1),
            7 * (i - 1) + 7,
        ));
    }
}

/// Decoding gives back what was framed: the reply that carries sixteen
/// decimal literals of seven bytes each, with any ASCII character as its
/// closing byte, decodes to those sixteen literals in their order.
pub proof fn lemma_decode_round_trip(fields: Seq<Seq<u8>>, end: u8)
    requires
        fields.len() == CHANNELS,
        all_seven_long(fields),
        forall|i: int| 0 <= i < CHANNELS ==> is_decimal(#[trigger] fields[i]),
        end <= ASCII_MAX,
    ensures
        decode_spec(reply_of(fields, end)) == Ok::<Seq<Seq<u8>>, Error>(fields),
{
    let bytes = reply_of(fields, end);
    lemma_joined_len(fields);
    assert forall|i: int| 0 <= i < CHANNELS implies #[trigger] field(bytes, i) == fields[i] by {
        lemma_joined_field(fields, i);
    }
    assert forall|k: int| 0 <= k < bytes.len() implies #[trigger] bytes[k] <= ASCII_MAX by {
        if 1 <= k < 113 {
            let i = (k - 1) / 7;
            let j = (k - 1) % 7;
            assert(field(bytes, i)[j] == bytes[k]);
            lemma_literal_is_ascii(fields[i], j);
        }
    }
    assert(Seq::new(CHANNELS as nat, |i: int| field(bytes, i)) =~= fields);
}

/// The same for the reply to a read of one channel: the reply that carries
/// one decimal literal of seven bytes, with any ASCII character as its
/// closing byte, decodes to it.
pub proof fn lemma_decode_chan_round_trip(text: Seq<u8>, end: u8)
    requires
        text.len() == FIELD_LEN,
        is_decimal(text),
        end <= ASCII_MAX,
    ensures
        decode_chan_spec(seq![MARKER] + text + seq![end]) == Ok::<Seq<u8>, Error>(text),
{
    let bytes = seq![MARKER] + text + seq![end];
    assert(field(bytes, 0) =~= text);
    assert forall|k: int| 0 <= k < bytes.len() implies #[trigger] bytes[k] <= ASCII_MAX by {
        if 1 <= k < 8 {
            lemma_literal_is_ascii(text, k - 1);
        }
    }
}

/// What decoding gives is sixteen decimal literals of seven bytes each, and
/// the reply is those literals framed again with its own closing byte:
/// nothing of the reply is lost but the frame.
pub proof fn lemma_decoded_is_framed_again(bytes: Seq<u8>)
    requires
        decode_spec(bytes) is Ok,
    ensures
        decode_spec(bytes)->Ok_0.len() == CHANNELS,
        forall|i: int|
            0 <= i < CHANNELS ==> (#[trigger] decode_spec(bytes)->Ok_0[i]).len() == FIELD_LEN
                && is_decimal(decode_spec(bytes)->Ok_0[i]),
        reply_of(decode_spec(bytes)->Ok_0, bytes.last()) == bytes,
{
    let fields = decode_spec(bytes)->Ok_0;
    assert forall|i: int| 0 <= i < CHANNELS implies (#[trigger] fields[i]).len() == FIELD_LEN
        && is_decimal(fields[i]) by {}
    let framed = reply_of(fields, bytes.last());
    lemma_joined_len(fields);
    assert forall|k: int| 0 <= k < bytes.len() implies framed[k] == bytes[k] by {
        if 1 <= k < 113 {
            let i = (k - 1) / 7;
            let j = (k - 1) % 7;
            lemma_joined_field(fields, i);
            assert(field(bytes, i)[j] == bytes[k]);
        }
    }
}

/// A reply to a read of all channels that has not 114 bytes, or does not
/// open with the marker, is refused as badly framed whatever it holds.
pub proof fn lemma_decode_refuses_unframed(bytes: Seq<u8>)
    requires
        bytes.len() != ALL_LEN || bytes[0] != MARKER,
    ensures
        decode_spec(bytes) == Err::<Seq<Seq<u8>>, Error>(Error::ResponseError),
{
}

/// A reply to a read of one channel that has not 9 bytes, or does not open
/// with the marker, is refused as badly framed whatever it holds.
pub proof fn lemma_decode_chan_refuses_unframed(bytes: Seq<u8>)
    requires
        bytes.len() != ONE_LEN || bytes[0] != MARKER,
    ensures
        decode_chan_spec(bytes) == Err::<Seq<u8>, Error>(Error::ResponseError),
{
}

/// One field that is no decimal literal refuses a framed reply as a whole:
/// nothing is decoded of the other fifteen.
pub proof fn lemma_one_bad_field_refuses_all(bytes: Seq<u8>, k: int)
    requires
        is_framed(bytes, ALL_LEN as int),
        0 <= k < CHANNELS,
        !is_decimal(field(bytes, k)),
    ensures
        decode_spec(bytes) == Err::<Seq<Seq<u8>>, Error>(Error::DecodeError),
{
}

/// Bytes that are ASCII text up to the last byte are UTF-8 text exactly when
/// the last byte is an ASCII character too.
proof fn lemma_ascii_is_utf8(bytes: Seq<u8>)
    requires
        bytes.len() >= 1,
        is_ascii_text(bytes.drop_last()),
    ensures
        valid_utf8(bytes) <==> bytes.last() <= ASCII_MAX,
{
    let n = bytes.len() as int;
    assert forall|i: int| 0 <= i < n - 1 implies #[trigger] is_leading_byte_width_1(bytes[i]) by {
        assert(bytes.drop_last()[i] == bytes[i]);
    }
    partial_valid_utf8_extend_ascii_block(bytes, 0, n - 1);
    if bytes.last() <= ASCII_MAX {
        partial_valid_utf8_extend_ascii_block(bytes, 0, n);
        assert(bytes.subrange(0, n) =~= bytes);
    } else {
        let last = bytes.subrange(n - 1, n);
        partial_valid_partial_invalid_utf8(bytes, n - 1);
    }
}

/// A framed reply decodes exactly when it is UTF-8 text and each of its
/// sixteen fields is a decimal literal: what is asked of the bytes, that
/// they be ASCII, is no more than that they be text.
pub proof fn lemma_decode_takes_text(bytes: Seq<u8>)
    requires
        is_framed(bytes, ALL_LEN as int),
    ensures
        decode_spec(bytes) is Ok <==> valid_utf8(bytes) && all_fields_decimal(bytes),
{
    if all_fields_decimal(bytes) {
        let body = bytes.drop_last();
        assert forall|k: int| 0 <= k < body.len() implies #[trigger] body[k] <= ASCII_MAX by {
            if k >= 1 {
                let i = (k - 1) / 7;
                let j = (k - 1) % 7;
                lemma_literal_is_ascii(field(bytes, i), j);
            }
        }
        lemma_ascii_is_utf8(bytes);
        if bytes.last() <= ASCII_MAX {
            assert forall|k: int| 0 <= k < bytes.len() implies #[trigger] bytes[k] <= ASCII_MAX by {
                if k < body.len() {
                    assert(body[k] == bytes[k]);
                }
            }
        }
    }
}

/// The same for the reply to a read of one channel.
pub proof fn lemma_decode_chan_takes_text(bytes: Seq<u8>)
    requires
        is_framed(bytes, ONE_LEN as int),
    ensures
        decode_chan_spec(bytes) is Ok <==> valid_utf8(bytes) && is_decimal(field(bytes, 0)),
{
    if is_decimal(field(bytes, 0)) {
        let body = bytes.drop_last();
        assert forall|k: int| 0 <= k < body.len() implies #[trigger] body[k] <= ASCII_MAX by {
            if k >= 1 {
                lemma_literal_is_ascii(field(bytes, 0), k - 1);
            }
        }
        lemma_ascii_is_utf8(bytes);
        if bytes.last() <= ASCII_MAX {
            assert forall|k: int| 0 <= k < bytes.len() implies #[trigger] bytes[k] <= ASCII_MAX by {
                if k < body.len() {
                    assert(body[k] == bytes[k]);
                }
            }
        }
    }
}

} // verus!
