//! The Borsh form of the values that a record is made of.

use vstd::prelude::*;
use vstd::utf8::*;
use borsh::{BorshDeserialize, BorshSerialize};
use crate::error::{FaultView, IoFault};

verus! {

/// The number that little-endian bytes stand for.
pub open spec fn le_value(bytes: Seq<u8>) -> nat
    decreases bytes.len(),
{
    if bytes.len() == 0 {
        0
    } else {
        bytes[0] as nat + 256 * le_value(bytes.skip(1))
    }
}

/// The lowest `width` bytes of a number, lowest first.
pub open spec fn le_bytes(value: nat, width: nat) -> Seq<u8>
    decreases width,
{
    if width == 0 {
        Seq::empty()
    } else {
        seq![(value % 256) as u8] + le_bytes(value / 256, (width - 1) as nat)
    }
}

/// The lowest `width` bytes of a number, highest first.
pub open spec fn be_bytes(value: nat, width: nat) -> Seq<u8>
    decreases width,
{
    if width == 0 {
        Seq::empty()
    } else {
        be_bytes(value / 256, (width - 1) as nat).push((value % 256) as u8)
    }
}

/// 256 to the power of `width`.
pub open spec fn capacity(width: nat) -> nat
    decreases width,
{
    if width == 0 {
        1
    } else {
        256 * capacity((width - 1) as nat)
    }
}

pub proof fn lemma_le_bytes_len(value: nat, width: nat)
    ensures
        le_bytes(value, width).len() == width,
    decreases width,
{
    if width > 0 {
        lemma_le_bytes_len(value / 256, (width - 1) as nat);
    }
}

/// A number that fits its width is read back from its bytes.
pub proof fn lemma_le_value_of_bytes(value: nat, width: nat)
    requires
        value < capacity(width),
    ensures
        le_value(le_bytes(value, width)) == value,
    decreases width,
{
    lemma_le_bytes_len(value, width);
    if width > 0 {
        let below = le_bytes(value / 256, (width - 1) as nat);
        assert(value / 256 < capacity((width - 1) as nat));
        lemma_le_value_of_bytes(value / 256, (width - 1) as nat);
        assert(le_bytes(value, width).skip(1) =~= below);
    }
}

/// Bytes are written back from the number that they stand for.
pub proof fn lemma_le_bytes_of_value(bytes: Seq<u8>)
    ensures
        le_bytes(le_value(bytes), bytes.len()) == bytes,
        le_value(bytes) < capacity(bytes.len()),
    decreases bytes.len(),
{
    if bytes.len() > 0 {
        let rest = bytes.skip(1);
        lemma_le_bytes_of_value(rest);
        let v = le_value(bytes);
        assert(v % 256 == bytes[0] as nat);
        assert(v / 256 == le_value(rest));
        assert(le_bytes(v, bytes.len()) =~= seq![bytes[0]] + rest);
        assert(bytes =~= seq![bytes[0]] + rest);
    }
}

/// A number in decimal digits.
pub open spec fn decimal(value: nat) -> Seq<char>
    decreases value,
{
    if value < 10 {
        seq![(48 + value) as char]
    } else {
        decimal(value / 10).push((48 + value % 10) as char)
    }
}

/// What Borsh says of input that ends before the value does.
pub open spec fn short_words() -> Seq<char> {
    "Unexpected length of input"@
}

/// What Borsh says of a byte that is no flag.
pub open spec fn bool_words(byte: u8) -> Seq<char> {
    "Invalid bool representation: "@ + decimal(byte as nat)
}

/// What Borsh says of the bytes of a text that are not UTF-8: where, and in how many
/// bytes, they are not.
pub uninterp spec fn utf8_words(bytes: Seq<u8>) -> Seq<char>;

/// Whether `input` ends before the text at its front does.
pub open spec fn string_short(input: Seq<u8>) -> bool {
    input.len() < 4 || input.len() - 4 < le_value(input.take(4))
}

/// The bytes of the text at the front of `input`, behind its length.
pub open spec fn string_body(input: Seq<u8>) -> Seq<u8> {
    input.subrange(4, 4 + le_value(input.take(4)) as int)
}

/// The text at the front of `input`, and what follows it: four bytes of length,
/// little-endian, then that many bytes of UTF-8.
pub open spec fn string_front(input: Seq<u8>) -> Result<(Seq<char>, Seq<u8>), FaultView> {
    if string_short(input) {
        Err(FaultView::Unreadable(short_words()))
    } else if valid_utf8(string_body(input)) {
        Ok((decode_utf8(string_body(input)), input.skip(4 + le_value(input.take(4)) as int)))
    } else {
        Err(FaultView::Unreadable(utf8_words(string_body(input))))
    }
}

/// The byte at the front of `input`, and what follows it.
pub open spec fn u8_front(input: Seq<u8>) -> Result<(u8, Seq<u8>), FaultView> {
    if input.len() < 1 {
        Err(FaultView::Unreadable(short_words()))
    } else {
        Ok((input[0], input.skip(1)))
    }
}

/// The flag at the front of `input`, and what follows it: one byte, 0 or 1.
pub open spec fn bool_front(input: Seq<u8>) -> Result<(bool, Seq<u8>), FaultView> {
    if input.len() < 1 {
        Err(FaultView::Unreadable(short_words()))
    } else if input[0] > 1 {
        Err(FaultView::Unreadable(bool_words(input[0])))
    } else {
        Ok((input[0] == 1, input.skip(1)))
    }
}

/// The number at the front of `input`, and what follows it: eight bytes,
/// little-endian.
pub open spec fn u64_front(input: Seq<u8>) -> Result<(nat, Seq<u8>), FaultView> {
    if input.len() < 8 {
        Err(FaultView::Unreadable(short_words()))
    } else {
        Ok((le_value(input.take(8)), input.skip(8)))
    }
}

/// The 32 bytes at the front of `input`, and what follows them.
pub open spec fn key_front(input: Seq<u8>) -> Result<(Seq<u8>, Seq<u8>), FaultView> {
    if input.len() < 32 {
        Err(FaultView::Unreadable(short_words()))
    } else {
        Ok((input.take(32), input.skip(32)))
    }
}

/// `<String as borsh::BorshDeserialize>::deserialize`: takes a text off the
/// front of the buffer exactly where [`string_front`] finds one, and leaves the
/// buffer at what follows it. Where it fails it says that the buffer is too short,
/// or, of bytes that are not UTF-8, what depends on these bytes alone.
#[verifier::external_body]
fn borsh_read_string<'a>(input: &'a [u8]) -> (r: Result<(String, &'a [u8]), String>)
    ensures
        r is Ok <==> string_front(input@) is Ok,
        r matches Ok((text, rest)) ==> string_front(input@)->Ok_0 == (text@, rest@),
        r is Err && string_short(input@) ==> r->Err_0@ == short_words(),
        r is Err && !string_short(input@) ==> r->Err_0@ == utf8_words(string_body(input@)),
{
    let mut rest: &'a [u8] = input;
    match String::deserialize(&mut rest) {
        Ok(text) => Ok((text, rest)),
        Err(error) => Err(error.to_string()),
    }
}

/// `<u8 as borsh::BorshDeserialize>::deserialize`: takes one byte off the front
/// of the buffer, and fails only on an empty one, saying that it is too short.
#[verifier::external_body]
fn borsh_read_u8<'a>(input: &'a [u8]) -> (r: Result<(u8, &'a [u8]), String>)
    ensures
        r is Ok <==> u8_front(input@) is Ok,
        r matches Ok((value, rest)) ==> u8_front(input@)->Ok_0 == (value, rest@),
        r is Err ==> r->Err_0@ == short_words(),
{
    let mut rest: &'a [u8] = input;
    match u8::deserialize(&mut rest) {
        Ok(value) => Ok((value, rest)),
        Err(error) => Err(error.to_string()),
    }
}

/// `<bool as borsh::BorshDeserialize>::deserialize`: takes one byte off the front
/// of the buffer, 0 for `false` and 1 for `true`. It fails on any other, saying in
/// decimal which it is, and on an empty buffer, saying that it is too short.
#[verifier::external_body]
fn borsh_read_bool<'a>(input: &'a [u8]) -> (r: Result<(bool, &'a [u8]), String>)
    ensures
        r is Ok <==> bool_front(input@) is Ok,
        r matches Ok((value, rest)) ==> bool_front(input@)->Ok_0 == (value, rest@),
        r is Err && input@.len() == 0 ==> r->Err_0@ == short_words(),
        r is Err && input@.len() > 0 ==> r->Err_0@ == bool_words(input@[0]),
{
    let mut rest: &'a [u8] = input;
    match bool::deserialize(&mut rest) {
        Ok(value) => Ok((value, rest)),
        Err(error) => Err(error.to_string()),
    }
}

/// `<u64 as borsh::BorshDeserialize>::deserialize`: takes eight bytes off the
/// front of the buffer, lowest first, and fails only where there are fewer, saying
/// that the buffer is too short.
#[verifier::external_body]
fn borsh_read_u64<'a>(input: &'a [u8]) -> (r: Result<(u64, &'a [u8]), String>)
    ensures
        r is Ok <==> u64_front(input@) is Ok,
        r matches Ok((value, rest)) ==> u64_front(input@)->Ok_0 == (value as nat, rest@),
        r is Err ==> r->Err_0@ == short_words(),
{
    let mut rest: &'a [u8] = input;
    match u64::deserialize(&mut rest) {
        Ok(value) => Ok((value, rest)),
        Err(error) => Err(error.to_string()),
    }
}

/// `<[u8; 32] as borsh::BorshDeserialize>::deserialize`: takes 32 bytes off the
/// front of the buffer as they are, and fails only where there are fewer, saying
/// that the buffer is too short.
#[verifier::external_body]
fn borsh_read_key<'a>(input: &'a [u8]) -> (r: Result<([u8; 32], &'a [u8]), String>)
    ensures
        r is Ok <==> key_front(input@) is Ok,
        r matches Ok((value, rest)) ==> key_front(input@)->Ok_0 == (value@, rest@),
        r is Err ==> r->Err_0@ == short_words(),
{
    let mut rest: &'a [u8] = input;
    match <[u8; 32]>::deserialize(&mut rest) {
        Ok(value) => Ok((value, rest)),
        Err(error) => Err(error.to_string()),
    }
}

/// Takes a text off the front of the input.
pub fn read_string<'a>(input: &'a [u8]) -> (r: Result<(String, &'a [u8]), IoFault>)
    ensures
        match r {
            Ok((text, rest)) => string_front(input@) is Ok && string_front(input@)->Ok_0 == (
                text@,
                rest@,
            ),
            Err(fault) => string_front(input@) is Err && string_front(input@)->Err_0 == fault@,
        },
{
    match borsh_read_string(input) {
        Ok(found) => Ok(found),
        Err(words) => Err(IoFault::Unreadable(words)),
    }
}

/// Takes a byte off the front of the input.
pub fn read_u8<'a>(input: &'a [u8]) -> (r: Result<(u8, &'a [u8]), IoFault>)
    ensures
        match r {
            Ok((value, rest)) => u8_front(input@) is Ok && u8_front(input@)->Ok_0 == (
                value,
                rest@,
            ),
            Err(fault) => u8_front(input@) is Err && u8_front(input@)->Err_0 == fault@,
        },
{
    match borsh_read_u8(input) {
        Ok(found) => Ok(found),
        Err(words) => Err(IoFault::Unreadable(words)),
    }
}

/// Takes a flag off the front of the input.
pub fn read_bool<'a>(input: &'a [u8]) -> (r: Result<(bool, &'a [u8]), IoFault>)
    ensures
        match r {
            Ok((value, rest)) => bool_front(input@) is Ok && bool_front(input@)->Ok_0 == (
                value,
                rest@,
            ),
            Err(fault) => bool_front(input@) is Err && bool_front(input@)->Err_0 == fault@,
        },
{
    match borsh_read_bool(input) {
        Ok(found) => Ok(found),
        Err(words) => Err(IoFault::Unreadable(words)),
    }
}

/// Takes a number off the front of the input.
pub fn read_u64<'a>(input: &'a [u8]) -> (r: Result<(u64, &'a [u8]), IoFault>)
    ensures
        match r {
            Ok((value, rest)) => u64_front(input@) is Ok && u64_front(input@)->Ok_0 == (
                value as nat,
                rest@,
            ),
            Err(fault) => u64_front(input@) is Err && u64_front(input@)->Err_0 == fault@,
        },
{
    match borsh_read_u64(input) {
        Ok(found) => Ok(found),
        Err(words) => Err(IoFault::Unreadable(words)),
    }
}

/// Takes 32 bytes off the front of the input.
pub fn read_key<'a>(input: &'a [u8]) -> (r: Result<([u8; 32], &'a [u8]), IoFault>)
    ensures
        match r {
            Ok((value, rest)) => key_front(input@) is Ok && key_front(input@)->Ok_0 == (
                value@,
                rest@,
            ),
            Err(fault) => key_front(input@) is Err && key_front(input@)->Err_0 == fault@,
        },
{
    match borsh_read_key(input) {
        Ok(found) => Ok(found),
        Err(words) => Err(IoFault::Unreadable(words)),
    }
}

/// Whether the length of a text can be said in four bytes.
pub open spec fn string_fits(text: Seq<char>) -> bool {
    encode_utf8(text).len() <= u32::MAX
}

/// A text as bytes: four bytes of length, little-endian, then UTF-8.
pub open spec fn string_bytes(text: Seq<char>) -> Seq<u8> {
    le_bytes(encode_utf8(text).len(), 4) + encode_utf8(text)
}

/// A flag as bytes.
pub open spec fn bool_bytes(value: bool) -> Seq<u8> {
    seq![if value { 1u8 } else { 0u8 }]
}

/// `<String as borsh::BorshSerialize>::serialize` into a `Vec<u8>`: appends the
/// bytes of the text, and fails, appending nothing, only where the length of the
/// text does not fit four bytes.
#[verifier::external_body]
pub(crate) fn borsh_write_string(out: &mut Vec<u8>, text: &String) -> (ok: bool)
    ensures
        ok == string_fits(text@),
        final(out)@ == if ok { old(out)@ + string_bytes(text@) } else { old(out)@ },
{
    text.serialize(out).is_ok()
}

/// `<u8 as borsh::BorshSerialize>::serialize` into a `Vec<u8>`: appends the byte.
#[verifier::external_body]
pub(crate) fn borsh_write_u8(out: &mut Vec<u8>, value: u8)
    ensures
        final(out)@ == old(out)@.push(value),
{
    value.serialize(out).unwrap()
}

/// `<bool as borsh::BorshSerialize>::serialize` into a `Vec<u8>`: appends 1 for
/// `true` and 0 for `false`.
#[verifier::external_body]
pub(crate) fn borsh_write_bool(out: &mut Vec<u8>, value: bool)
    ensures
        final(out)@ == old(out)@ + bool_bytes(value),
{
    value.serialize(out).unwrap()
}

/// `<u64 as borsh::BorshSerialize>::serialize` into a `Vec<u8>`: appends the
/// eight bytes of the number, lowest first.
#[verifier::external_body]
pub(crate) fn borsh_write_u64(out: &mut Vec<u8>, value: u64)
    ensures
        final(out)@ == old(out)@ + le_bytes(value as nat, 8),
{
    value.serialize(out).unwrap()
}

/// `<[u8; 32] as borsh::BorshSerialize>::serialize` into a `Vec<u8>`: appends
/// the 32 bytes as they are.
#[verifier::external_body]
pub(crate) fn borsh_write_key(out: &mut Vec<u8>, value: &[u8; 32])
    ensures
        final(out)@ == old(out)@ + value@,
{
    value.serialize(out).unwrap()
}

/// The eight bytes of a number, highest first.
pub fn u64_be_bytes(value: u64) -> (r: Vec<u8>)
    ensures
        r@ == be_bytes(value as nat, 8),
{
    let mut r: Vec<u8> = Vec::new();
    let mut shift: u64 = 0x100_0000_0000_0000;
    let mut width: u64 = 0;
    proof {
        reveal_with_fuel(capacity, 9);
        assert(be_bytes(value as nat / capacity(8), 0) =~= Seq::<u8>::empty());
    }
    while width < 8
        invariant
            width <= 8,
            width < 8 ==> shift == capacity((7 - width) as nat),
            r@ == be_bytes(value as nat / capacity((8 - width) as nat), width as nat),
        decreases 8 - width,
    {
        let digit: u64 = value / shift % 256;
        r.push(digit as u8);
        proof {
            reveal_with_fuel(capacity, 9);
            let here: nat = value as nat / capacity((7 - width) as nat);
            vstd::arithmetic::div_mod::lemma_div_denominator(
                value as int,
                capacity((7 - width) as nat) as int,
                256,
            );
            assert(capacity((8 - width) as nat) == 256 * capacity((7 - width) as nat));
            assert(here / 256 == value as nat / capacity((8 - width) as nat));
        }
        shift = shift / 256;
        width = width + 1;
    }
    r
}

/// A text is read back from its bytes, whatever follows them.
pub proof fn lemma_string_front_of_bytes(text: Seq<char>, rest: Seq<u8>)
    requires
        string_fits(text),
    ensures
        string_front(string_bytes(text) + rest) == Ok::<(Seq<char>, Seq<u8>), FaultView>((text, rest)),
{
    let body = encode_utf8(text);
    let input = string_bytes(text) + rest;
    lemma_le_bytes_len(body.len(), 4);
    reveal_with_fuel(capacity, 5);
    lemma_le_value_of_bytes(body.len(), 4);
    assert(input.take(4) =~= le_bytes(body.len(), 4));
    let end = 4 + body.len() as int;
    assert(input.subrange(4, end) =~= body);
    assert(input.skip(end) =~= rest);
    encode_utf8_valid_utf8(text);
    encode_utf8_decode_utf8(text);
}

/// A text that was read is written back as it stood.
pub proof fn lemma_string_bytes_of_front(input: Seq<u8>)
    requires
        string_front(input) is Ok,
    ensures
        string_fits(string_front(input)->Ok_0.0),
        input == string_bytes(string_front(input)->Ok_0.0) + string_front(input)->Ok_0.1,
{
    let length = le_value(input.take(4));
    let end = 4 + length as int;
    let body = input.subrange(4, end);
    decode_utf8_encode_utf8(body);
    lemma_le_bytes_of_value(input.take(4));
    reveal_with_fuel(capacity, 5);
    assert(input =~= input.take(4) + body + input.skip(end));
}

/// A flag is read back from its byte, whatever follows it.
pub proof fn lemma_bool_front_of_bytes(value: bool, rest: Seq<u8>)
    ensures
        bool_front(bool_bytes(value) + rest) == Ok::<(bool, Seq<u8>), FaultView>((value, rest)),
{
    assert((bool_bytes(value) + rest).skip(1) =~= rest);
}

/// A byte is read back, whatever follows it.
pub proof fn lemma_u8_front_of_bytes(value: u8, rest: Seq<u8>)
    ensures
        u8_front(seq![value] + rest) == Ok::<(u8, Seq<u8>), FaultView>((value, rest)),
{
    assert((seq![value] + rest).skip(1) =~= rest);
}

/// A number is read back from its bytes, whatever follows them.
pub proof fn lemma_u64_front_of_bytes(value: u64, rest: Seq<u8>)
    ensures
        u64_front(le_bytes(value as nat, 8) + rest) == Ok::<(nat, Seq<u8>), FaultView>(
            (value as nat, rest),
        ),
{
    lemma_le_bytes_len(value as nat, 8);
    reveal_with_fuel(capacity, 9);
    lemma_le_value_of_bytes(value as nat, 8);
    let input = le_bytes(value as nat, 8) + rest;
    assert(input.take(8) =~= le_bytes(value as nat, 8));
    assert(input.skip(8) =~= rest);
}

/// A key is read back, whatever follows it.
pub proof fn lemma_key_front_of_bytes(key: Seq<u8>, rest: Seq<u8>)
    requires
        key.len() == 32,
    ensures
        key_front(key + rest) == Ok::<(Seq<u8>, Seq<u8>), FaultView>((key, rest)),
{
    assert((key + rest).take(32) =~= key);
    assert((key + rest).skip(32) =~= rest);
}

/// A number that was read is written back as it stood.
pub proof fn lemma_u64_bytes_of_front(input: Seq<u8>)
    requires
        u64_front(input) is Ok,
    ensures
        u64_front(input)->Ok_0.0 <= u64::MAX,
        input == le_bytes(u64_front(input)->Ok_0.0, 8) + u64_front(input)->Ok_0.1,
{
    lemma_le_bytes_of_value(input.take(8));
    reveal_with_fuel(capacity, 9);
    assert(input =~= input.take(8) + input.skip(8));
}

} // verus!
