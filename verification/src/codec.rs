//! The wire form of the envelope: each of its three parts, where it is not
//! empty, as a key byte, the length as a base-128 number and the bytes.
//!
//! Reading is strict: only what writing produces is read. Bytes that hold a
//! part twice, parts in another order, a part with another key, an empty
//! part, or a length with a needless digit are refused, although a lenient
//! reader of the same format would take them.
//!
//! The envelope is also a message type of its own, with a deserializer that
//! reads back what it encodes to.

use crate::command_worker::VecU8Message;
use crate::errors::{DispatchError, ErrorKind};
use crate::messages::{SerializedObject, SerializedObjectView};
use crate::registry::{
    bytes_contents, decode_error, decodes, direct_handled, direct_outcome, fails_with, ignoring_handled,
    ignoring_outcome, mapped_handled, mapped_outcome, vec_from_bytes, void_handled, void_outcome,
};
use bytes::Bytes;
use prost::DecodeError;
use vstd::prelude::*;
use vstd::utf8::{decode_utf8, encode_utf8, valid_utf8};

verus! {

/// The key byte of the type name.
pub const OBJECT_TYPE_KEY: u8 = 0x0a;

/// The key byte of the revision.
pub const REVISION_KEY: u8 = 0x12;

/// The key byte of the data.
pub const DATA_KEY: u8 = 0x1a;

/// The most bytes that the length of a part takes.
pub const LENGTH_BYTES: usize = 10;

/// `value` as a base-128 number, least significant digit first, each digit
/// but the last marked with the high bit.
pub open spec fn varint(value: nat) -> Seq<u8>
    decreases value,
{
    if value < 128 {
        seq![value as u8]
    } else {
        seq![(value % 128 + 128) as u8] + varint(value / 128)
    }
}

/// The wire form of one part: nothing where `content` is empty, and else
/// the key, the length of `content` and `content`.
pub open spec fn field(key: u8, content: Seq<u8>) -> Seq<u8> {
    if content.len() == 0 {
        Seq::<u8>::empty()
    } else {
        seq![key] + varint(content.len()) + content
    }
}

/// The wire form of an envelope: type name, revision and data, in this
/// order.
pub open spec fn envelope_bytes(object: SerializedObjectView) -> Seq<u8> {
    field(OBJECT_TYPE_KEY, encode_utf8(object.object_type)) + field(REVISION_KEY, encode_utf8(object.revision))
        + field(DATA_KEY, object.data)
}

/// Whether the parts of `object` have lengths that the wire form can
/// state. The parts of every envelope in memory have.
pub open spec fn fits_wire_form(object: SerializedObjectView) -> bool {
    &&& encode_utf8(object.object_type).len() <= u64::MAX
    &&& encode_utf8(object.revision).len() <= u64::MAX
    &&& object.data.len() <= u64::MAX
}

/// The number that `bytes` start with, in at most `budget` bytes, and the
/// count of bytes that it takes; `None` where they start with no number, or
/// with one that has a needless last digit.
pub open spec fn parse_varint(bytes: Seq<u8>, budget: nat) -> Option<(nat, nat)>
    decreases budget,
{
    if budget == 0 || bytes.len() == 0 {
        None
    } else if bytes[0] < 128 {
        Some((bytes[0] as nat, 1nat))
    } else {
        match parse_varint(bytes.drop_first(), (budget - 1) as nat) {
            Some((higher, taken)) if higher > 0 => Some(((bytes[0] - 128 + 128 * higher) as nat, taken + 1)),
            _ => None,
        }
    }
}

/// The part with the key `key` that `bytes` start with, and the count of
/// bytes that it takes: an empty part that takes no bytes where `bytes` do
/// not start with `key`; `None` where the key is followed by no length, by
/// the length zero, or by fewer bytes than the length says.
pub open spec fn parse_field(bytes: Seq<u8>, key: u8) -> Option<(Seq<u8>, nat)> {
    if bytes.len() == 0 || bytes[0] != key {
        Some((Seq::<u8>::empty(), 0nat))
    } else {
        match parse_varint(bytes.drop_first(), LENGTH_BYTES as nat) {
            Some((length, taken)) if 0 < length && 1 + taken + length <= bytes.len() => Some(
                (bytes.subrange((1 + taken) as int, (1 + taken + length) as int), 1 + taken + length),
            ),
            _ => None,
        }
    }
}

/// The envelope that `bytes` are the wire form of; `None` where they are
/// the wire form of none.
pub open spec fn parse_envelope(bytes: Seq<u8>) -> Option<SerializedObjectView> {
    match parse_field(bytes, OBJECT_TYPE_KEY) {
        Some((object_type, first)) if valid_utf8(object_type) => match parse_field(
            bytes.skip(first as int),
            REVISION_KEY,
        ) {
            Some((revision, second)) if valid_utf8(revision) => match parse_field(
                bytes.skip((first + second) as int),
                DATA_KEY,
            ) {
                Some((data, third)) if first + second + third == bytes.len() => Some(
                    SerializedObjectView {
                        object_type: decode_utf8(object_type),
                        revision: decode_utf8(revision),
                        data,
                    },
                ),
                _ => None,
            },
            _ => None,
        },
        _ => None,
    }
}

/// 128 to the power of `exponent`.
pub open spec fn pow128(exponent: nat) -> nat
    decreases exponent,
{
    if exponent == 0 {
        1
    } else {
        128 * pow128((exponent - 1) as nat)
    }
}

/// A number below 128 to the power of `budget` is read back from its
/// base-128 form, whatever follows it.
pub proof fn lemma_varint_round_trip(value: nat, tail: Seq<u8>, budget: nat)
    requires
        0 < budget,
        value < pow128(budget),
    ensures
        parse_varint(varint(value) + tail, budget) == Some((value, varint(value).len())),
    decreases budget,
{
    let bytes = varint(value) + tail;
    if value < 128 {
        assert(bytes[0] == value as u8);
        assert(varint(value).len() == 1);
    } else {
        assert(budget > 1) by {
            if budget == 1 {
                assert(pow128(1) == 128 * pow128(0));
            }
        }
        let higher = value / 128;
        assert(higher < pow128((budget - 1) as nat)) by {
            assert(pow128(budget) == 128 * pow128((budget - 1) as nat));
            if higher >= pow128((budget - 1) as nat) {
                assert(value >= 128 * higher) by (nonlinear_arith)
                    requires
                        higher == value / 128,
                ;
                assert(128 * higher >= 128 * pow128((budget - 1) as nat)) by (nonlinear_arith)
                    requires
                        higher >= pow128((budget - 1) as nat),
                ;
            }
        }
        assert(bytes[0] == (value % 128 + 128) as u8);
        assert(bytes.drop_first() =~= varint(higher) + tail);
        lemma_varint_round_trip(higher, tail, (budget - 1) as nat);
        assert(value % 128 + 128 * higher == value) by (nonlinear_arith)
            requires
                higher == value / 128,
        ;
        assert(varint(value).len() == varint(higher).len() + 1);
        assert(higher > 0);
        assert(bytes[0] - 128 + 128 * higher == value);
        assert(parse_varint(bytes.drop_first(), (budget - 1) as nat) == Some((higher, varint(higher).len())));
    }
}

/// The length of a part that fits the wire format takes at most ten bytes.
pub proof fn lemma_length_fits(length: nat)
    requires
        length <= u64::MAX,
    ensures
        length < pow128(LENGTH_BYTES as nat),
{
    assert(pow128(10) == 1180591620717411303424) by {
        reveal_with_fuel(pow128, 11);
    }
}

/// A part is read back from its wire form, whatever follows it, as long as
/// what follows does not start with the part's key where the part is empty.
pub proof fn lemma_field_round_trip(key: u8, content: Seq<u8>, tail: Seq<u8>)
    requires
        content.len() <= u64::MAX,
        content.len() == 0 ==> tail.len() == 0 || tail[0] != key,
    ensures
        parse_field(field(key, content) + tail, key) == Some((content, field(key, content).len())),
        (field(key, content) + tail).skip(field(key, content).len() as int) == tail,
{
    let bytes = field(key, content) + tail;
    if content.len() == 0 {
        assert(bytes =~= tail);
        assert(bytes.skip(0) =~= tail);
    } else {
        let length = varint(content.len());
        assert(bytes[0] == key);
        assert(bytes.drop_first() =~= length + (content + tail));
        lemma_length_fits(content.len());
        lemma_varint_round_trip(content.len(), content + tail, LENGTH_BYTES as nat);
        assert(bytes.subrange((1 + length.len()) as int, (1 + length.len() + content.len()) as int) =~= content);
        assert(bytes.skip(field(key, content).len() as int) =~= tail);
    }
}

/// The wire form of a part starts with the part's key, where it starts at
/// all.
proof fn lemma_field_starts_with_key(key: u8, content: Seq<u8>)
    ensures
        field(key, content).len() > 0 ==> field(key, content)[0] == key,
        field(key, content).len() == 0 <==> content.len() == 0,
{
}

/// Every envelope is read back from its wire form: decoding what encoding
/// wrote yields the envelope that was encoded.
pub proof fn lemma_envelope_round_trip(object: SerializedObjectView)
    requires
        fits_wire_form(object),
    ensures
        parse_envelope(envelope_bytes(object)) == Some(object),
{
    broadcast use vstd::utf8::encode_utf8_valid_utf8, vstd::utf8::encode_utf8_decode_utf8;

    let object_type = encode_utf8(object.object_type);
    let revision = encode_utf8(object.revision);
    let first = field(OBJECT_TYPE_KEY, object_type);
    let second = field(REVISION_KEY, revision);
    let third = field(DATA_KEY, object.data);
    let bytes = envelope_bytes(object);
    lemma_field_starts_with_key(REVISION_KEY, revision);
    lemma_field_starts_with_key(DATA_KEY, object.data);
    assert(bytes =~= first + (second + third));
    assert((second + third).len() > 0 ==> (second + third)[0] != OBJECT_TYPE_KEY) by {
        if second.len() > 0 {
            assert((second + third)[0] == second[0]);
        } else if third.len() > 0 {
            assert((second + third)[0] == third[0]);
        }
    }
    lemma_field_round_trip(OBJECT_TYPE_KEY, object_type, second + third);
    assert(bytes.skip(first.len() as int) == second + third);
    assert(third.len() > 0 ==> third[0] != REVISION_KEY);
    lemma_field_round_trip(REVISION_KEY, revision, third);
    assert(bytes.skip((first.len() + second.len()) as int) =~= third);
    assert(third =~= third + Seq::<u8>::empty());
    lemma_field_round_trip(DATA_KEY, object.data, Seq::<u8>::empty());
    assert(decode_utf8(object_type) == object.object_type);
    assert(decode_utf8(revision) == object.revision);
}

/// The bytes that a number was read from are its base-128 form.
pub proof fn lemma_varint_is_canonical(bytes: Seq<u8>, budget: nat)
    requires
        parse_varint(bytes, budget).is_some(),
    ensures
        ({
            let (value, taken) = parse_varint(bytes, budget).unwrap();
            taken <= bytes.len() && bytes.subrange(0, taken as int) == varint(value)
        }),
    decreases budget,
{
    let (value, taken) = parse_varint(bytes, budget).unwrap();
    if bytes[0] < 128 {
        assert(bytes.subrange(0, 1) =~= varint(value));
    } else {
        let rest = bytes.drop_first();
        lemma_varint_is_canonical(rest, (budget - 1) as nat);
        let (higher, shorter) = parse_varint(rest, (budget - 1) as nat).unwrap();
        assert(value == bytes[0] - 128 + 128 * higher);
        assert(value / 128 == higher && value % 128 == bytes[0] - 128) by (nonlinear_arith)
            requires
                value == bytes[0] - 128 + 128 * higher,
                128 <= bytes[0] < 256,
                higher > 0,
        ;
        assert(rest.subrange(0, shorter as int) == varint(higher));
        assert(bytes.subrange(0, taken as int) =~= seq![bytes[0]] + rest.subrange(0, shorter as int));
    }
}

/// The bytes that a part was read from are its wire form.
pub proof fn lemma_field_is_canonical(bytes: Seq<u8>, key: u8)
    requires
        parse_field(bytes, key).is_some(),
    ensures
        ({
            let (content, taken) = parse_field(bytes, key).unwrap();
            taken <= bytes.len() && bytes.subrange(0, taken as int) == field(key, content) && content.len()
                <= bytes.len()
        }),
{
    let (content, taken) = parse_field(bytes, key).unwrap();
    if bytes.len() == 0 || bytes[0] != key {
        assert(bytes.subrange(0, 0) =~= field(key, content));
    } else {
        let rest = bytes.drop_first();
        lemma_varint_is_canonical(rest, LENGTH_BYTES as nat);
        let (length, digits) = parse_varint(rest, LENGTH_BYTES as nat).unwrap();
        assert(rest.subrange(0, digits as int) == varint(length));
        assert(bytes.subrange(0, taken as int) =~= seq![key] + rest.subrange(0, digits as int) + content);
    }
}

/// The bytes that an envelope was read from are its wire form, and the
/// parts of the envelope have lengths that the wire form can state, as long
/// as the count of the bytes can be stated.
pub proof fn lemma_envelope_is_canonical(bytes: Seq<u8>)
    requires
        parse_envelope(bytes).is_some(),
    ensures
        bytes == envelope_bytes(parse_envelope(bytes).unwrap()),
        bytes.len() <= u64::MAX ==> fits_wire_form(parse_envelope(bytes).unwrap()),
{
    broadcast use vstd::utf8::decode_utf8_encode_utf8;

    let (object_type, first) = parse_field(bytes, OBJECT_TYPE_KEY).unwrap();
    lemma_field_is_canonical(bytes, OBJECT_TYPE_KEY);
    let after_first = bytes.skip(first as int);
    let (revision, second) = parse_field(after_first, REVISION_KEY).unwrap();
    lemma_field_is_canonical(after_first, REVISION_KEY);
    let after_second = bytes.skip((first + second) as int);
    let (data, third) = parse_field(after_second, DATA_KEY).unwrap();
    lemma_field_is_canonical(after_second, DATA_KEY);
    assert(after_first.subrange(0, second as int) =~= bytes.subrange(first as int, (first + second) as int));
    assert(after_second.subrange(0, third as int) =~= bytes.subrange(
        (first + second) as int,
        (first + second + third) as int,
    ));
    assert(bytes =~= bytes.subrange(0, first as int) + bytes.subrange(first as int, (first + second) as int)
        + bytes.subrange((first + second) as int, (first + second + third) as int));
    assert(encode_utf8(decode_utf8(object_type)) == object_type);
    assert(encode_utf8(decode_utf8(revision)) == revision);
}

/// Whether `bytes` are the wire form of an envelope.
pub open spec fn is_wire_form(bytes: Seq<u8>) -> bool {
    exists|object: SerializedObjectView| fits_wire_form(object) && bytes == #[trigger] envelope_bytes(object)
}

/// Bytes are the wire form of an envelope exactly where an envelope is read
/// from them.
pub proof fn lemma_wire_form_is_what_parses(bytes: Seq<u8>)
    requires
        bytes.len() <= u64::MAX,
    ensures
        is_wire_form(bytes) == parse_envelope(bytes).is_some(),
{
    if parse_envelope(bytes).is_some() {
        lemma_envelope_is_canonical(bytes);
        assert(bytes == envelope_bytes(parse_envelope(bytes).unwrap()));
    }
    if is_wire_form(bytes) {
        let object = choose|object: SerializedObjectView|
            fits_wire_form(object) && bytes == #[trigger] envelope_bytes(object);
        lemma_envelope_round_trip(object);
    }
}

/// Appends `value` as a base-128 number to `buf`.
fn put_varint(buf: &mut Vec<u8>, value: u64)
    ensures
        final(buf)@ == old(buf)@ + varint(value as nat),
{
    let mut rest: u64 = value;
    while rest >= 128
        invariant
            old(buf)@ + varint(value as nat) == buf@ + varint(rest as nat),
        decreases rest,
    {
        let ghost before = buf@;
        buf.push((rest % 128 + 128) as u8);
        proof {
            assert(varint(rest as nat) == seq![(rest % 128 + 128) as u8] + varint((rest / 128) as nat));
            assert(buf@ + varint((rest / 128) as nat) =~= before + varint(rest as nat));
        }
        rest = rest / 128;
    }
    let ghost before = buf@;
    buf.push(rest as u8);
    assert(buf@ =~= before + varint(rest as nat));
}

/// Appends `content` to `buf`.
fn put_bytes(buf: &mut Vec<u8>, content: &[u8])
    ensures
        final(buf)@ == old(buf)@ + content@,
{
    let mut i: usize = 0;
    while i < content.len()
        invariant
            i <= content@.len(),
            buf@ == old(buf)@ + content@.subrange(0, i as int),
        decreases content@.len() - i,
    {
        let ghost before = buf@;
        buf.push(content[i]);
        assert(buf@ =~= old(buf)@ + content@.subrange(0, i + 1));
        i += 1;
    }
    assert(content@.subrange(0, content@.len() as int) =~= content@);
}

/// Appends the wire form of the part `content` with the key `key` to `buf`.
fn put_field(buf: &mut Vec<u8>, key: u8, content: &[u8])
    ensures
        final(buf)@ == old(buf)@ + field(key, content@),
{
    if content.len() > 0 {
        buf.push(key);
        put_varint(buf, content.len() as u64);
        put_bytes(buf, content);
        assert(buf@ =~= old(buf)@ + field(key, content@));
    } else {
        assert(buf@ =~= old(buf)@ + field(key, content@));
    }
}

/// Writes the wire form of `object`.
pub fn encode_envelope(object: &SerializedObject) -> (bytes: Vec<u8>)
    ensures
        bytes@ == envelope_bytes(object@),
        fits_wire_form(object@),
{
    let mut bytes: Vec<u8> = Vec::new();
    let object_type = object.object_type.as_str().as_bytes();
    let revision = object.revision.as_str().as_bytes();
    let data = object.data.as_slice();
    let lengths = (object_type.len(), revision.len(), data.len());
    assert(object_type@.len() == lengths.0 && revision@.len() == lengths.1 && data@.len() == lengths.2);
    put_field(&mut bytes, OBJECT_TYPE_KEY, object_type);
    put_field(&mut bytes, REVISION_KEY, revision);
    put_field(&mut bytes, DATA_KEY, data);
    assert(bytes@ =~= envelope_bytes(object@));
    bytes
}

/// Turns bytes into text.
///
/// Trusted: the body calls `String::from_utf8`, which succeeds on exactly
/// the byte sequences that are UTF-8 and then keeps the bytes as they are.
#[verifier::external_body]
fn string_from_utf8(bytes: Vec<u8>) -> (text: Option<String>)
    ensures
        text.is_some() == valid_utf8(bytes@),
        text matches Some(s) ==> s@ == decode_utf8(bytes@),
{
    match String::from_utf8(bytes) {
        Ok(text) => Some(text),
        Err(_) => None,
    }
}

/// Reads the number that `bytes` hold at `at`, in at most `budget` bytes.
/// Returns the number and the count of bytes that it takes; `None` where
/// there is none, or none that fits.
fn read_varint(bytes: &[u8], at: usize, budget: usize) -> (read: Option<(u64, usize)>)
    requires
        at <= bytes@.len(),
    ensures
        match read {
            Some((value, taken)) => parse_varint(bytes@.skip(at as int), budget as nat) == Some(
                (value as nat, taken as nat),
            ) && at + taken <= bytes@.len(),
            None => match parse_varint(bytes@.skip(at as int), budget as nat) {
                Some((value, _)) => value > u64::MAX,
                None => true,
            },
        },
    decreases budget,
{
    if budget == 0 || at >= bytes.len() {
        return None;
    }
    let low = bytes[at];
    assert(bytes@.skip(at as int)[0] == low);
    if low < 128 {
        return Some((low as u64, 1));
    }
    assert(bytes@.skip(at as int).drop_first() =~= bytes@.skip(at + 1));
    match read_varint(bytes, at + 1, budget - 1) {
        Some((higher, taken)) => {
            let digit: u64 = (low - 128) as u64;
            if higher > 0 && higher <= (u64::MAX - digit) / 128 {
                assert(digit + 128 * higher <= u64::MAX) by (nonlinear_arith)
                    requires
                        higher <= (u64::MAX - digit) / 128,
                        digit <= u64::MAX,
                ;
                Some((digit + 128 * higher, taken + 1))
            } else {
                proof {
                    if higher > 0 {
                        assert(digit + 128 * higher > u64::MAX) by (nonlinear_arith)
                            requires
                                higher > (u64::MAX - digit) / 128,
                                0 <= digit < 128,
                        ;
                    }
                }
                None
            }
        },
        None => None,
    }
}

/// Reads the part with the key `key` that `bytes` hold at `at`. Returns
/// where the content of the part starts and where it ends, which is where
/// the part ends too; `None` where the part is malformed.
fn read_field(bytes: &[u8], at: usize, key: u8) -> (read: Option<(usize, usize)>)
    requires
        at <= bytes@.len(),
    ensures
        match read {
            Some((start, end)) => at <= start <= end <= bytes@.len() && parse_field(bytes@.skip(at as int), key)
                == Some((bytes@.subrange(start as int, end as int), (end - at) as nat)),
            None => parse_field(bytes@.skip(at as int), key).is_none(),
        },
{
    if at >= bytes.len() || bytes[at] != key {
        assert(at < bytes@.len() ==> bytes@.skip(at as int)[0] == bytes@[at as int]);
        assert(bytes@.subrange(at as int, at as int) =~= Seq::<u8>::empty());
        return Some((at, at));
    }
    assert(bytes@.skip(at as int)[0] == key);
    assert(bytes@.skip(at as int).drop_first() =~= bytes@.skip(at + 1));
    match read_varint(bytes, at + 1, LENGTH_BYTES) {
        Some((length, taken)) => {
            let start = at + 1 + taken;
            if length > 0 && length <= (bytes.len() - start) as u64 {
                let end = start + length as usize;
                assert(bytes@.skip(at as int).subrange((1 + taken) as int, (1 + taken + length) as int)
                    =~= bytes@.subrange(start as int, end as int));
                Some((start, end))
            } else {
                None
            }
        },
        None => None,
    }
}

/// Copies the bytes from `start` up to `end`.
fn take_bytes(bytes: &[u8], start: usize, end: usize) -> (taken: Vec<u8>)
    requires
        start <= end <= bytes@.len(),
    ensures
        taken@ == bytes@.subrange(start as int, end as int),
{
    let mut taken: Vec<u8> = Vec::new();
    let mut i: usize = start;
    while i < end
        invariant
            start <= i <= end <= bytes@.len(),
            taken@ == bytes@.subrange(start as int, i as int),
        decreases end - i,
    {
        taken.push(bytes[i]);
        assert(taken@ =~= bytes@.subrange(start as int, i + 1));
        i += 1;
    }
    taken
}

/// The failure to read an envelope.
fn malformed(what: &str) -> (error: DispatchError)
    ensures
        error.kind == ErrorKind::Decode,
{
    DispatchError::new(ErrorKind::Decode, what)
}

/// Reads the envelope that `bytes` are the wire form of. Fails where they
/// are the wire form of none.
pub fn decode_envelope(bytes: &[u8]) -> (result: Result<SerializedObject, DispatchError>)
    ensures
        result.is_ok() == is_wire_form(bytes@),
        match result {
            Ok(object) => bytes@ == envelope_bytes(object@) && parse_envelope(bytes@) == Some(object@),
            Err(error) => error.kind == ErrorKind::Decode && parse_envelope(bytes@).is_none(),
        },
{
    proof {
        let count = bytes.len();
        assert(bytes@.len() == count);
        lemma_wire_form_is_what_parses(bytes@);
        if parse_envelope(bytes@).is_some() {
            lemma_envelope_is_canonical(bytes@);
        }
    }
    assert(bytes@.skip(0) =~= bytes@);
    let (type_start, type_end) = match read_field(bytes, 0, OBJECT_TYPE_KEY) {
        Some(range) => range,
        None => {
            return Err(malformed("malformed type name"));
        },
    };
    let object_type = match string_from_utf8(take_bytes(bytes, type_start, type_end)) {
        Some(text) => text,
        None => {
            return Err(malformed("type name is not UTF-8"));
        },
    };
    let (revision_start, revision_end) = match read_field(bytes, type_end, REVISION_KEY) {
        Some(range) => range,
        None => {
            return Err(malformed("malformed revision"));
        },
    };
    let revision = match string_from_utf8(take_bytes(bytes, revision_start, revision_end)) {
        Some(text) => text,
        None => {
            return Err(malformed("revision is not UTF-8"));
        },
    };
    let (data_start, data_end) = match read_field(bytes, revision_end, DATA_KEY) {
        Some(range) => range,
        None => {
            return Err(malformed("malformed data"));
        },
    };
    if data_end != bytes.len() {
        return Err(malformed("bytes after the envelope"));
    }
    let data = take_bytes(bytes, data_start, data_end);
    Ok(SerializedObject { object_type, revision, data })
}

/// An envelope is itself a message: its encoding is its wire form, and
/// encoding it never fails.
impl VecU8Message for SerializedObject {
    open spec fn encodes(&self, bytes: Seq<u8>) -> bool {
        fits_wire_form(self@) && bytes == envelope_bytes(self@)
    }

    open spec fn refuses(&self, text: Seq<char>) -> bool {
        false
    }

    fn encode_u8(&self, buf: &mut Vec<u8>) -> (result: Result<(), String>)
        ensures
            result.is_ok(),
            final(buf)@ == old(buf)@ + envelope_bytes(self@),
    {
        let bytes = encode_envelope(self);
        put_bytes(buf, bytes.as_slice());
        proof {
            let before = old(buf)@;
            assert(buf@.subrange(0, before.len() as int) =~= before);
            assert(buf@.subrange(before.len() as int, buf@.len() as int) =~= envelope_bytes(self@));
        }
        Ok(())
    }
}

/// Reads the envelope that `bytes` hold the wire form of, as a deserializer
/// for the registry. Fails where they hold the wire form of none.
pub fn decode_object(bytes: Bytes) -> (decoded: Result<SerializedObject, DecodeError>)
    ensures
        decoded.is_ok() == is_wire_form(bytes_contents(bytes)),
        decoded matches Ok(object) ==> bytes_contents(bytes) == envelope_bytes(object@) && parse_envelope(
            bytes_contents(bytes),
        ) == Some(object@),
{
    let buf = vec_from_bytes(bytes);
    match decode_envelope(buf.as_slice()) {
        Ok(object) => Ok(object),
        Err(error) => Err(decode_error(error.message())),
    }
}

/// Whether `decoded` is a message that holds what `message` holds.
pub open spec fn yields<M: View>(decoded: Result<M, DecodeError>, message: M) -> bool {
    decoded matches Ok(read) && read@ == message@
}

/// Whether `deserializer` reads back what the messages of its type encode
/// to: whatever bytes a message encodes to, decoding them does not fail and
/// yields a message that holds what that message holds.
pub open spec fn reads_back<M: VecU8Message + View, D: Fn(Bytes) -> Result<M, DecodeError>>(deserializer: D) -> bool {
    forall|message: M, bytes: Seq<u8>, decoded: Result<M, DecodeError>|
        #![trigger message.encodes(bytes), decodes(deserializer, bytes, decoded)]
        message.encodes(bytes) && decodes(deserializer, bytes, decoded) ==> yields(decoded, message)
}

/// The deserializer of envelopes reads back what envelopes encode to.
pub proof fn lemma_envelope_is_read_back()
    ensures
        reads_back::<SerializedObject, _>(decode_object),
{
    assert forall|message: SerializedObject, bytes: Seq<u8>, decoded: Result<SerializedObject, DecodeError>|
        #![trigger message.encodes(bytes), decodes(decode_object, bytes, decoded)]
        message.encodes(bytes) && decodes(decode_object, bytes, decoded) implies yields(decoded, message) by {
        let held = choose|held: Bytes| bytes_contents(held) == bytes && call_ensures(decode_object, (held,), decoded);
        lemma_envelope_round_trip(message@);
        assert(is_wire_form(bytes));
    }
}

/// What a message was serialized to is read back as that message by a
/// deserializer that reads back.
pub proof fn lemma_serialized_message_is_read_back<M: VecU8Message + View, D: Fn(Bytes) -> Result<M, DecodeError>>(
    deserializer: D,
    message: M,
    object: SerializedObject,
    decoded: Result<M, DecodeError>,
)
    requires
        reads_back(deserializer),
        message.encodes(object.data@),
        decodes(deserializer, object.data@, decoded),
    ensures
        yields(decoded, message),
{
}

/// A handler without output, behind a deserializer that reads back, is
/// called with the message that was encoded, and no decode failure comes
/// out.
pub proof fn lemma_void_handler_gets_the_message<M: VecU8Message + View, C, W, D: Fn(Bytes) -> Result<M, DecodeError>, F: Fn(M, &C) -> Result<(), String>>(
    deserializer: D,
    handler: F,
    message: M,
    buf: Seq<u8>,
    ctx: &C,
    outcome: Result<Option<W>, DispatchError>,
)
    requires
        reads_back(deserializer),
        message.encodes(buf),
        void_outcome(deserializer, handler, buf, ctx, outcome),
    ensures
        exists|read: M| read@ == message@ && #[trigger] void_handled(handler, read, ctx, outcome),
        !fails_with(outcome, ErrorKind::Decode),
{
    let decoded = choose|decoded: Result<M, DecodeError>| #[trigger]
        decodes(deserializer, buf, decoded) && match decoded {
            Err(_) => fails_with(outcome, ErrorKind::Decode),
            Ok(read) => void_handled(handler, read, ctx, outcome),
        };
    assert(message.encodes(buf) && decodes(deserializer, buf, decoded));
    let read = decoded->Ok_0;
    assert(void_handled(handler, read, ctx, outcome));
}

/// A handler whose output is dropped, behind a deserializer that reads
/// back, is called with the message that was encoded, and no decode failure
/// comes out.
pub proof fn lemma_ignoring_handler_gets_the_message<M: VecU8Message + View, R, C, W, D: Fn(Bytes) -> Result<M, DecodeError>, F: Fn(M, &C) -> Result<Option<R>, String>>(
    deserializer: D,
    handler: F,
    message: M,
    buf: Seq<u8>,
    ctx: &C,
    outcome: Result<Option<W>, DispatchError>,
)
    requires
        reads_back(deserializer),
        message.encodes(buf),
        ignoring_outcome(deserializer, handler, buf, ctx, outcome),
    ensures
        exists|read: M| read@ == message@ && #[trigger] ignoring_handled::<M, R, C, W, F>(handler, read, ctx, outcome),
        !fails_with(outcome, ErrorKind::Decode),
{
    let decoded = choose|decoded: Result<M, DecodeError>| #[trigger]
        decodes(deserializer, buf, decoded) && match decoded {
            Err(_) => fails_with(outcome, ErrorKind::Decode),
            Ok(read) => ignoring_handled::<M, R, C, W, F>(handler, read, ctx, outcome),
        };
    assert(message.encodes(buf) && decodes(deserializer, buf, decoded));
    let read = decoded->Ok_0;
    assert(ignoring_handled::<M, R, C, W, F>(handler, read, ctx, outcome));
}

/// A handler whose output is the worker's own response type, behind a
/// deserializer that reads back, is called with the message that was
/// encoded, and no decode failure comes out.
pub proof fn lemma_direct_handler_gets_the_message<M: VecU8Message + View, C, W, D: Fn(Bytes) -> Result<M, DecodeError>, F: Fn(M, &C) -> Result<Option<W>, String>>(
    deserializer: D,
    handler: F,
    message: M,
    buf: Seq<u8>,
    ctx: &C,
    outcome: Result<Option<W>, DispatchError>,
)
    requires
        reads_back(deserializer),
        message.encodes(buf),
        direct_outcome(deserializer, handler, buf, ctx, outcome),
    ensures
        exists|read: M| read@ == message@ && #[trigger] direct_handled(handler, read, ctx, outcome),
        !fails_with(outcome, ErrorKind::Decode),
{
    let decoded = choose|decoded: Result<M, DecodeError>| #[trigger]
        decodes(deserializer, buf, decoded) && match decoded {
            Err(_) => fails_with(outcome, ErrorKind::Decode),
            Ok(read) => direct_handled(handler, read, ctx, outcome),
        };
    assert(message.encodes(buf) && decodes(deserializer, buf, decoded));
    let read = decoded->Ok_0;
    assert(direct_handled(handler, read, ctx, outcome));
}

/// A handler whose output is wrapped, behind a deserializer that reads
/// back, is called with the message that was encoded, and no decode failure
/// comes out.
pub proof fn lemma_mapped_handler_gets_the_message<M: VecU8Message + View, R, C, W, D: Fn(Bytes) -> Result<M, DecodeError>, F: Fn(M, &C) -> Result<Option<R>, String>, X: Fn(&str, &R) -> Result<W, String>>(
    deserializer: D,
    handler: F,
    response_type: Seq<char>,
    wrapper: X,
    message: M,
    buf: Seq<u8>,
    ctx: &C,
    outcome: Result<Option<W>, DispatchError>,
)
    requires
        reads_back(deserializer),
        message.encodes(buf),
        mapped_outcome(deserializer, handler, response_type, wrapper, buf, ctx, outcome),
    ensures
        exists|read: M| read@ == message@ && #[trigger] mapped_handled(
            handler,
            response_type,
            wrapper,
            read,
            ctx,
            outcome,
        ),
        !fails_with(outcome, ErrorKind::Decode),
{
    let decoded = choose|decoded: Result<M, DecodeError>| #[trigger]
        decodes(deserializer, buf, decoded) && match decoded {
            Err(_) => fails_with(outcome, ErrorKind::Decode),
            Ok(read) => mapped_handled(handler, response_type, wrapper, read, ctx, outcome),
        };
    assert(message.encodes(buf) && decodes(deserializer, buf, decoded));
    let read = decoded->Ok_0;
    assert(mapped_handled(handler, response_type, wrapper, read, ctx, outcome));
}

} // verus!
