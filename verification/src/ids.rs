use vstd::prelude::*;
use crate::errors::ApiError;

verus! {

/// The identifier of a stored document: twelve bytes, written as 24 hexadecimal digits.
#[derive(Clone, Copy, Debug, PartialEq, Eq)]
pub struct DocId {
    pub bytes: [u8; 12],
}

impl View for DocId {
    type V = Seq<u8>;

    open spec fn view(&self) -> Seq<u8> {
        self.bytes@
    }
}

/// Whether `c` is a hexadecimal digit, in either case.
pub open spec fn is_hex_digit(c: char) -> bool {
    ('0' <= c && c <= '9') || ('a' <= c && c <= 'f') || ('A' <= c && c <= 'F')
}

/// The value of a hexadecimal digit.
pub open spec fn hex_value(c: char) -> int {
    if '0' <= c && c <= '9' {
        c as int - 48
    } else if 'a' <= c && c <= 'f' {
        c as int - 87
    } else {
        c as int - 55
    }
}

/// The bytes written by a 24-digit hexadecimal string, two digits per byte, high digit first;
/// `None` for any other string.
pub open spec fn object_id_from_hex(s: Seq<char>) -> Option<Seq<u8>> {
    if s.len() == 24 && (forall|i: int| 0 <= i < s.len() ==> is_hex_digit(#[trigger] s[i])) {
        Some(Seq::new(12, |i: int| (hex_value(s[2 * i]) * 16 + hex_value(s[2 * i + 1])) as u8))
    } else {
        None
    }
}

/// The lower-case hexadecimal digit of a value below 16.
pub open spec fn lower_hex_digit(d: int) -> char {
    if d < 10 {
        (d + 48) as char
    } else {
        (d + 87) as char
    }
}

/// Bytes written in lower-case hexadecimal, two digits per byte, high digit first.
pub open spec fn object_id_hex(b: Seq<u8>) -> Seq<char> {
    Seq::new(
        2 * b.len(),
        |i: int|
            if i % 2 == 0 {
                lower_hex_digit(b[i / 2] as int / 16)
            } else {
                lower_hex_digit(b[i / 2] as int % 16)
            },
    )
}

/// `ObjectId::parse_str` of the bson crate (through `mongodb::bson`): it hex-decodes the
/// string and accepts it only when that gives exactly twelve bytes. The contract claims that
/// the bytes returned are those of `object_id_from_hex`, and `None` exactly when that is `None`.
#[verifier::external_body]
fn parse_object_id(s: &str) -> (r: Option<[u8; 12]>)
    ensures
        match r {
            Some(b) => object_id_from_hex(s@) == Some(b@),
            None => object_id_from_hex(s@) is None,
        },
{
    match mongodb::bson::oid::ObjectId::parse_str(s) {
        Ok(id) => Some(id.bytes()),
        Err(_) => None,
    }
}

/// `ObjectId::to_hex` of the bson crate, which is `hex::encode` of the twelve bytes. The
/// contract claims the lower-case hexadecimal text of `object_id_hex`.
#[verifier::external_body]
fn object_id_to_hex(bytes: [u8; 12]) -> (r: String)
    ensures
        r@ == object_id_hex(bytes@),
{
    mongodb::bson::oid::ObjectId::from_bytes(bytes).to_hex()
}

impl DocId {
    /// Reads an identifier from its 24 hexadecimal digits.
    pub fn parse(s: &str) -> (r: Option<DocId>)
        ensures
            match r {
                Some(id) => object_id_from_hex(s@) == Some(id@),
                None => object_id_from_hex(s@) is None,
            },
    {
        match parse_object_id(s) {
            Some(bytes) => Some(DocId { bytes }),
            None => None,
        }
    }

    /// Reads an identifier from its 24 hexadecimal digits, or answers `err` when `s` is not one.
    pub fn parse_or(s: &str, err: ApiError) -> (r: Result<DocId, ApiError>)
        ensures
            match r {
                Ok(id) => object_id_from_hex(s@) == Some(id@),
                Err(e) => object_id_from_hex(s@) is None && e == err,
            },
    {
        match DocId::parse(s) {
            Some(id) => Ok(id),
            None => Err(err),
        }
    }

    /// The identifier written as 24 lower-case hexadecimal digits.
    pub fn to_hex(&self) -> (r: String)
        ensures
            r@ == object_id_hex(self@),
    {
        object_id_to_hex(self.bytes)
    }
}

proof fn lemma_hex_digit_round_trip(d: int)
    requires
        0 <= d < 16,
    ensures
        is_hex_digit(lower_hex_digit(d)),
        hex_value(lower_hex_digit(d)) == d,
{
}

/// Writing twelve bytes in hexadecimal and reading the text back gives the same bytes.
pub proof fn lemma_object_id_hex_round_trip(b: Seq<u8>)
    requires
        b.len() == 12,
    ensures
        object_id_from_hex(object_id_hex(b)) == Some(b),
{
    let s = object_id_hex(b);
    assert forall|i: int| 0 <= i < s.len() implies is_hex_digit(#[trigger] s[i]) by {
        lemma_hex_digit_round_trip(b[i / 2] as int / 16);
        lemma_hex_digit_round_trip(b[i / 2] as int % 16);
    }
    let decoded = Seq::new(
        12,
        |i: int| (hex_value(s[2 * i]) * 16 + hex_value(s[2 * i + 1])) as u8,
    );
    assert forall|i: int| 0 <= i < 12 implies decoded[i] == b[i] by {
        assert((2 * i) % 2 == 0 && (2 * i) / 2 == i);
        assert((2 * i + 1) % 2 == 1 && (2 * i + 1) / 2 == i);
        lemma_hex_digit_round_trip(b[i] as int / 16);
        lemma_hex_digit_round_trip(b[i] as int % 16);
    }
    assert(decoded =~= b);
}

/// Twelve bytes are written as 24 digits, each `0` to `9` or a lower-case `a` to `f`.
pub proof fn lemma_object_id_hex_is_lower_case(b: Seq<u8>)
    requires
        b.len() == 12,
    ensures
        object_id_hex(b).len() == 24,
        forall|i: int|
            0 <= i < 24 ==> ('0' <= #[trigger] object_id_hex(b)[i] <= '9' || 'a' <= object_id_hex(b)[i]
                <= 'f'),
{
    assert forall|i: int| 0 <= i < 24 implies ('0' <= #[trigger] object_id_hex(b)[i] <= '9' || 'a'
        <= object_id_hex(b)[i] <= 'f') by {
        let d = if i % 2 == 0 {
            b[i / 2] as int / 16
        } else {
            b[i / 2] as int % 16
        };
        assert(0 <= d < 16);
        assert(object_id_hex(b)[i] == lower_hex_digit(d));
    }
}

} // verus!
