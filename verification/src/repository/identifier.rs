//! Reading a record's identifier from text and writing it back.
//!
//! The store's identifier is twelve bytes, written as twenty-four
//! hexadecimal digits.

use mongodb::bson::oid::ObjectId;
use vstd::prelude::*;

verus! {

/// `c` is one of `0`-`9`, `a`-`f`, `A`-`F`.
pub open spec fn is_hex_digit(c: char) -> bool {
    ||| '0' as u32 <= c as u32 <= '9' as u32
    ||| 'a' as u32 <= c as u32 <= 'f' as u32
    ||| 'A' as u32 <= c as u32 <= 'F' as u32
}

/// The number that the hexadecimal digit `c` stands for.
pub open spec fn hex_value(c: char) -> int {
    if '0' as u32 <= c as u32 <= '9' as u32 {
        c as u32 - '0' as u32
    } else if 'a' as u32 <= c as u32 <= 'f' as u32 {
        c as u32 - 'a' as u32 + 10
    } else {
        c as u32 - 'A' as u32 + 10
    }
}

/// The lower-case hexadecimal digit that stands for `v`, for `v` below 16.
pub open spec fn hex_digit(v: int) -> char {
    if v < 10 {
        (v + '0' as u32) as char
    } else {
        (v - 10 + 'a' as u32) as char
    }
}

/// The lower-case form of a hexadecimal digit.
pub open spec fn lower_hex(c: char) -> char {
    if 'A' as u32 <= c as u32 <= 'F' as u32 {
        (c as u32 - 'A' as u32 + 'a' as u32) as char
    } else {
        c
    }
}

/// The store's grammar of identifiers: exactly twenty-four hexadecimal digits.
pub open spec fn is_identifier_text(text: Seq<char>) -> bool {
    &&& text.len() == 24
    &&& forall|i: int| 0 <= i < 24 ==> is_hex_digit(#[trigger] text[i])
}

/// The byte that two hexadecimal digits write, the first digit being the
/// upper half.
pub open spec fn byte_of(high: char, low: char) -> u8 {
    (16 * hex_value(high) + hex_value(low)) as u8
}

/// The twelve bytes that twenty-four hexadecimal digits write.
pub open spec fn decode_hex(text: Seq<char>) -> Seq<u8> {
    Seq::new(12, |i: int| byte_of(text[2 * i], text[2 * i + 1]))
}

/// The digits that write `bytes`, two for each byte, in lower case.
pub open spec fn encode_hex(bytes: Seq<u8>) -> Seq<char> {
    Seq::new(
        2 * bytes.len(),
        |i: int|
            if i % 2 == 0 {
                hex_digit(bytes[i / 2] as int / 16)
            } else {
                hex_digit(bytes[i / 2] as int % 16)
            },
    )
}

/// A text in lower case, digit by digit.
pub open spec fn lower_text(text: Seq<char>) -> Seq<char> {
    Seq::new(text.len(), |i: int| lower_hex(text[i]))
}

/// The store's identifier of a record.
#[derive(Clone, Copy, Debug, PartialEq, Eq, Hash)]
pub struct NativeId {
    /// The twelve bytes of the identifier.
    pub bytes: [u8; 12],
}

/// Why a text is no identifier.
#[derive(Clone, Copy, Debug, PartialEq, Eq, Structural)]
pub enum IdentifierError {
    /// The text is not in the store's grammar of identifiers.
    InvalidIdentifier,
}

/// The failure that the driver reports for a text that is no identifier.
#[verifier::external_type_specification]
#[verifier::external_body]
pub struct ExObjectIdError(mongodb::bson::oid::Error);

/// Calls `ObjectId::parse_str` and, on what it read, `ObjectId::bytes`. The
/// driver decodes the text as hexadecimal, two digits to a byte, upper and
/// lower case alike, and accepts it if and only if that gives exactly
/// twelve bytes; those are the bytes of the identifier.
#[verifier::external_body]
fn object_id_bytes(text: &str) -> (parsed: Result<[u8; 12], mongodb::bson::oid::Error>)
    ensures
        parsed is Ok <==> is_identifier_text(text@),
        parsed matches Ok(bytes) ==> bytes@ == decode_hex(text@),
{
    match ObjectId::parse_str(text) {
        Ok(id) => Ok(id.bytes()),
        Err(e) => Err(e),
    }
}

/// Reads an identifier from its text. Every text outside the grammar,
/// the empty one too, is refused with `InvalidIdentifier`.
pub fn parse_object_id(id: &str) -> (parsed: Result<NativeId, IdentifierError>)
    ensures
        parsed is Ok <==> is_identifier_text(id@),
        parsed matches Ok(native) ==> native.bytes@ == decode_hex(id@),
        parsed matches Err(e) ==> e == IdentifierError::InvalidIdentifier,
{
    match object_id_bytes(id) {
        Ok(bytes) => Ok(NativeId { bytes }),
        Err(_) => Err(IdentifierError::InvalidIdentifier),
    }
}

/// The lower-case hexadecimal digit for a number below 16, as a text of one
/// character.
fn digit_text(v: u8) -> (text: &'static str)
    requires
        v < 16,
    ensures
        text@ == seq![hex_digit(v as int)],
{
    let text = match v {
        0 => "0",
        1 => "1",
        2 => "2",
        3 => "3",
        4 => "4",
        5 => "5",
        6 => "6",
        7 => "7",
        8 => "8",
        9 => "9",
        10 => "a",
        11 => "b",
        12 => "c",
        13 => "d",
        14 => "e",
        _ => "f",
    };
    proof {
        reveal_strlit("0");
        reveal_strlit("1");
        reveal_strlit("2");
        reveal_strlit("3");
        reveal_strlit("4");
        reveal_strlit("5");
        reveal_strlit("6");
        reveal_strlit("7");
        reveal_strlit("8");
        reveal_strlit("9");
        reveal_strlit("a");
        reveal_strlit("b");
        reveal_strlit("c");
        reveal_strlit("d");
        reveal_strlit("e");
        reveal_strlit("f");
    }
    text
}

impl NativeId {
    /// The identifier as the store writes it: twenty-four hexadecimal
    /// digits in lower case.
    pub fn to_hex(&self) -> (text: String)
        ensures
            text@ == encode_hex(self.bytes@),
            is_identifier_text(text@),
    {
        let mut text = String::new();
        let mut i: usize = 0;
        while i < 12
            invariant
                i <= 12,
                text@.len() == 2 * i,
                forall|k: int| 0 <= k < 2 * i ==> text@[k] == encode_hex(self.bytes@)[k],
            decreases 12 - i,
        {
            let byte = self.bytes[i];
            text.append(digit_text(byte / 16));
            text.append(digit_text(byte % 16));
            i += 1;
        }
        proof {
            lemma_encoded_is_identifier_text(self.bytes@);
        }
        text
    }
}

/// A number below 16 and its digit stand for each other.
pub proof fn lemma_digit_of_value(v: int)
    requires
        0 <= v < 16,
    ensures
        is_hex_digit(hex_digit(v)),
        hex_value(hex_digit(v)) == v,
        lower_hex(hex_digit(v)) == hex_digit(v),
{
}

/// A hexadecimal digit stands for a number below 16, whose digit is the
/// lower-case form of the one it came from.
pub proof fn lemma_value_of_digit(c: char)
    requires
        is_hex_digit(c),
    ensures
        0 <= hex_value(c) < 16,
        hex_digit(hex_value(c)) == lower_hex(c),
{
}

/// What `encode_hex` writes for twelve bytes is in the grammar of identifiers.
pub proof fn lemma_encoded_is_identifier_text(bytes: Seq<u8>)
    requires
        bytes.len() == 12,
    ensures
        is_identifier_text(encode_hex(bytes)),
{
    let text = encode_hex(bytes);
    assert forall|i: int| 0 <= i < 24 implies is_hex_digit(#[trigger] text[i]) by {
        let b = bytes[i / 2] as int;
        lemma_digit_of_value(b / 16);
        lemma_digit_of_value(b % 16);
    }
}

/// Reading what was written gives the identifier back: for every
/// identifier, its text is in the grammar and decodes to the same bytes.
pub proof fn lemma_decode_encode(bytes: Seq<u8>)
    requires
        bytes.len() == 12,
    ensures
        is_identifier_text(encode_hex(bytes)),
        decode_hex(encode_hex(bytes)) == bytes,
{
    lemma_encoded_is_identifier_text(bytes);
    let back = decode_hex(encode_hex(bytes));
    assert forall|i: int| 0 <= i < 12 implies back[i] == bytes[i] by {
        let b = bytes[i] as int;
        lemma_digit_of_value(b / 16);
        lemma_digit_of_value(b % 16);
        assert(16 * (b / 16) + b % 16 == b);
    }
}

/// Writing what was read gives the text back, in lower case: for every text
/// in the grammar, the identifier it decodes to is written with the same
/// digits.
pub proof fn lemma_encode_decode(text: Seq<char>)
    requires
        is_identifier_text(text),
    ensures
        decode_hex(text).len() == 12,
        encode_hex(decode_hex(text)) == lower_text(text),
{
    let back = encode_hex(decode_hex(text));
    assert forall|k: int| 0 <= k < 24 implies back[k] == lower_hex(text[k]) by {
        let i = k / 2;
        let high = text[2 * i];
        let low = text[2 * i + 1];
        lemma_value_of_digit(high);
        lemma_value_of_digit(low);
        assert(decode_hex(text)[i] == byte_of(high, low));
    }
}

/// Two texts in the grammar name the same identifier exactly when they
/// differ in the case of their digits only.
pub proof fn lemma_same_identifier(a: Seq<char>, b: Seq<char>)
    requires
        is_identifier_text(a),
        is_identifier_text(b),
    ensures
        decode_hex(a) == decode_hex(b) <==> lower_text(a) == lower_text(b),
{
    lemma_encode_decode(a);
    lemma_encode_decode(b);
    if lower_text(a) == lower_text(b) {
        assert forall|i: int| 0 <= i < 12 implies decode_hex(a)[i] == decode_hex(b)[i] by {
            lemma_value_of_digit(a[2 * i]);
            lemma_value_of_digit(a[2 * i + 1]);
            lemma_value_of_digit(b[2 * i]);
            lemma_value_of_digit(b[2 * i + 1]);
            assert(lower_text(a)[2 * i] == lower_text(b)[2 * i]);
            assert(lower_text(a)[2 * i + 1] == lower_text(b)[2 * i + 1]);
        }
        assert(decode_hex(a) =~= decode_hex(b));
    }
}

} // verus!
