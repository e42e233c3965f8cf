//! Opaque twelve-byte identifiers: the key of a stored game, the token a
//! player proves itself with, and the stamp that fences an update.

use vstd::prelude::*;
use mongodb::bson::oid::ObjectId;

verus! {

/// A twelve-byte identifier, written as 24 hexadecimal digits.
#[derive(Clone, Copy, PartialEq, Eq, Hash, Debug)]
pub struct Identity {
    bytes: [u8; 12],
}

/// The value of a hexadecimal digit, in either case; `None` for any other
/// character.
pub open spec fn hex_value(c: char) -> Option<int> {
    if '0' <= c <= '9' {
        Some(c as int - '0' as int)
    } else if 'a' <= c <= 'f' {
        Some(c as int - 'a' as int + 10)
    } else if 'A' <= c <= 'F' {
        Some(c as int - 'A' as int + 10)
    } else {
        None
    }
}

/// The lower-case hexadecimal digit of a value below 16.
pub open spec fn hex_digit(v: int) -> char {
    if v < 10 {
        ('0' as int + v) as char
    } else {
        ('a' as int + v - 10) as char
    }
}

/// A text names an identifier when it is made of exactly 24 hexadecimal
/// digits.
pub open spec fn is_identity_text(s: Seq<char>) -> bool {
    &&& s.len() == 24
    &&& forall|i: int| 0 <= i < 24 ==> (#[trigger] hex_value(s[i])).is_some()
}

/// The bytes that a text of 24 hexadecimal digits names: two digits a byte,
/// the high one first.
pub open spec fn text_bytes(s: Seq<char>) -> Seq<u8> {
    Seq::new(
        12,
        |i: int| (16 * hex_value(s[2 * i]).unwrap() + hex_value(s[2 * i + 1]).unwrap()) as u8,
    )
}

/// The text of a sequence of bytes: two lower-case hexadecimal digits a
/// byte, the high one first.
pub open spec fn bytes_text(b: Seq<u8>) -> Seq<char> {
    Seq::new(
        2 * b.len(),
        |i: int|
            if i % 2 == 0 {
                hex_digit(b[i / 2] as int / 16)
            } else {
                hex_digit(b[i / 2] as int % 16)
            },
    )
}

/// A value below 16 is the value of its own digit.
pub proof fn lemma_digit_value(v: int)
    requires
        0 <= v < 16,
    ensures
        hex_value(hex_digit(v)) == Some(v),
{
}

/// The text of twelve bytes names an identifier, and the bytes it names are
/// the bytes it was written from.
pub proof fn lemma_text_round_trip(b: Seq<u8>)
    requires
        b.len() == 12,
    ensures
        is_identity_text(bytes_text(b)),
        text_bytes(bytes_text(b)) == b,
{
    let s = bytes_text(b);
    assert forall|i: int| 0 <= i < 24 implies (#[trigger] hex_value(s[i])).is_some() by {
        lemma_digit_value(b[i / 2] as int / 16);
        lemma_digit_value(b[i / 2] as int % 16);
    }
    assert forall|i: int| 0 <= i < 12 implies text_bytes(s)[i] == b[i] by {
        lemma_digit_value(b[i] as int / 16);
        lemma_digit_value(b[i] as int % 16);
        assert((2 * i) / 2 == i && (2 * i) % 2 == 0);
        assert((2 * i + 1) / 2 == i && (2 * i + 1) % 2 == 1);
    }
    assert(text_bytes(s) =~= b);
}

impl View for Identity {
    type V = Seq<u8>;

    closed spec fn view(&self) -> Seq<u8> {
        self.bytes@
    }
}

/// `ObjectId::new`: draws an identifier from the clock, a value chosen at
/// random when the process started and a counter. Nothing is claimed of the
/// bytes it holds. It panics where the clock of the machine stands before
/// 1970 or after 2106.
#[verifier::external_body]
fn generate_object_id() -> (id: Identity) {
    Identity { bytes: ObjectId::new().bytes() }
}

/// `ObjectId::parse_str`: succeeds exactly on a text of 24 hexadecimal
/// digits of either case, and then holds the twelve bytes that the digits
/// spell, two digits a byte.
#[verifier::external_body]
fn parse_object_id(s: &str) -> (id: Option<Identity>)
    ensures
        id.is_some() == is_identity_text(s@),
        id matches Some(i) ==> i@ == text_bytes(s@),
{
    match ObjectId::parse_str(s) {
        Ok(id) => Some(Identity { bytes: id.bytes() }),
        Err(_) => None,
    }
}

/// `ObjectId::to_hex`: spells the twelve bytes as 24 lower-case hexadecimal
/// digits.
#[verifier::external_body]
fn object_id_to_hex(id: &Identity) -> (s: String)
    ensures
        s@ == bytes_text(id@),
{
    ObjectId::from_bytes(id.bytes).to_hex()
}

impl Identity {
    /// Every identifier has twelve bytes.
    pub proof fn lemma_len(self)
        ensures
            self@.len() == 12,
    {
    }

    /// Identifiers with the same bytes are the same identifier.
    pub proof fn lemma_same_bytes(self, other: Identity)
        requires
            self@ == other@,
        ensures
            self == other,
    {
        assert(self.bytes =~= other.bytes);
    }

    /// The identifier that holds the given bytes.
    pub fn from_bytes(bytes: [u8; 12]) -> (id: Identity)
        ensures
            id@ == bytes@,
    {
        Identity { bytes }
    }

    /// The bytes of this identifier.
    pub fn bytes(&self) -> (bytes: [u8; 12])
        ensures
            bytes@ == self@,
    {
        self.bytes
    }

    /// A new identifier, which no contract tells from any other. It is made
    /// to differ from those made before; its callers are verified for every
    /// value that it may have.
    pub fn generate() -> Identity {
        generate_object_id()
    }

    /// Reads an identifier from its text; `None` unless the text is made of
    /// exactly 24 hexadecimal digits.
    pub fn parse_str(s: &str) -> (id: Option<Identity>)
        ensures
            id.is_some() == is_identity_text(s@),
            id matches Some(i) ==> i@ == text_bytes(s@),
    {
        parse_object_id(s)
    }

    /// The text of this identifier: 24 lower-case hexadecimal digits.
    pub fn to_hex(&self) -> (s: String)
        ensures
            s@ == bytes_text(self@),
    {
        object_id_to_hex(self)
    }
}

} // verus!
