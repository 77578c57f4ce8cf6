//! The tagged value model: the unit of data held in a chunk's literal pool and
//! manipulated by the virtual machine, together with its canonical byte
//! encoding.
//!
//! A value is encoded as `[tag:1][payload]`: tag `0` is an integer with an
//! 8-byte big-endian payload; tag `1` is a string with an 8-byte big-endian
//! length followed by that many UTF-8 bytes.

use crate::byte_reader;
use vstd::prelude::*;
use vstd::utf8::{decode_utf8, encode_utf8, valid_utf8};

verus! {

/// Tag byte marking an integer value in the encoded form.
pub const INTEGER_TAG: u8 = 0;

/// Tag byte marking a string value in the encoded form.
pub const STRING_TAG: u8 = 1;

/// A value: a 64-bit integer or an owned UTF-8 string. Values are immutable
/// once constructed and are cloned when read from the literal pool.
#[derive(Debug, PartialEq, Eq)]
pub enum Value {
    Integer(u64),
    String(String),
}

/// The kind of a value, named by runtime type errors.
#[derive(Clone, Copy, Debug, PartialEq, Eq, Structural)]
pub enum Type {
    Integer,
    String,
}

/// A format error: the byte form of a chunk or of a value is malformed.
/// Decoding aborts on the first such error; no partial value is returned.
#[derive(Clone, Copy, Debug, PartialEq, Eq, Structural)]
pub enum DecodeError {
    /// The buffer does not begin with the 4-byte magic constant.
    InvalidMagic,
    /// The buffer ends before the announced data does.
    Truncated,
    /// A value begins with a tag byte that names no known kind.
    UnknownTag { tag: u8 },
    /// A string payload is not well-formed UTF-8.
    InvalidUtf8,
}

/// The mathematical model of a [`Value`]: an integer, or a string seen as its
/// sequence of characters.
#[verifier::ext_equal]
pub enum ValueView {
    Int(u64),
    Str(Seq<char>),
}

impl View for Value {
    type V = ValueView;

    open spec fn view(&self) -> ValueView {
        match self {
            Value::Integer(x) => ValueView::Int(*x),
            Value::String(s) => ValueView::Str(s@),
        }
    }
}

/// The kind of a modelled value.
pub open spec fn spec_type_of(v: ValueView) -> Type {
    match v {
        ValueView::Int(_) => Type::Integer,
        ValueView::Str(_) => Type::String,
    }
}

/// The canonical tagged encoding of a value.
pub open spec fn spec_value_bytes(v: ValueView) -> Seq<u8> {
    match v {
        ValueView::Int(x) => seq![INTEGER_TAG] + byte_reader::spec_u64_to_be_bytes(x),
        ValueView::Str(s) => seq![STRING_TAG] + byte_reader::spec_u64_to_be_bytes(
            encode_utf8(s).len() as u64,
        ) + encode_utf8(s),
    }
}

/// A machine limit on encodable values: a string's UTF-8 form must fit the
/// 8-byte length field. Every value held in a real `String` satisfies this.
pub open spec fn value_encodable(v: ValueView) -> bool {
    match v {
        ValueView::Int(_) => true,
        ValueView::Str(s) => encode_utf8(s).len() <= u64::MAX,
    }
}

/// Parsing one value off the front of a byte sequence: the number of bytes
/// consumed and the value read, or the first format error met.
pub open spec fn spec_parse_value(bytes: Seq<u8>) -> Result<(int, ValueView), DecodeError> {
    if bytes.len() < 1 {
        Err(DecodeError::Truncated)
    } else if bytes[0] == INTEGER_TAG {
        if bytes.len() < 9 {
            Err(DecodeError::Truncated)
        } else {
            Ok((9, ValueView::Int(byte_reader::spec_u64_from_be_bytes(bytes.subrange(1, 9)))))
        }
    } else if bytes[0] == STRING_TAG {
        if bytes.len() < 9 {
            Err(DecodeError::Truncated)
        } else {
            let n = byte_reader::spec_u64_from_be_bytes(bytes.subrange(1, 9)) as int;
            if bytes.len() < 9 + n {
                Err(DecodeError::Truncated)
            } else if !valid_utf8(bytes.subrange(9, 9 + n)) {
                Err(DecodeError::InvalidUtf8)
            } else {
                Ok((9 + n, ValueView::Str(decode_utf8(bytes.subrange(9, 9 + n)))))
            }
        }
    } else {
        Err(DecodeError::UnknownTag { tag: bytes[0] })
    }
}

/// Parsing inverts encoding: a value's byte form, followed by anything, parses
/// back to exactly that value, consuming exactly its byte form.
pub proof fn lemma_value_bytes_parse(v: ValueView, rest: Seq<u8>)
    requires
        value_encodable(v),
    ensures
        spec_parse_value(spec_value_bytes(v) + rest) == Ok::<(int, ValueView), DecodeError>(
            (spec_value_bytes(v).len() as int, v),
        ),
{
    let bytes = spec_value_bytes(v) + rest;
    match v {
        ValueView::Int(x) => {
            byte_reader::lemma_u64_be_bytes_inverse(x);
            assert(bytes.subrange(1, 9) =~= byte_reader::spec_u64_to_be_bytes(x));
        },
        ValueView::Str(s) => {
            let enc = encode_utf8(s);
            byte_reader::lemma_u64_be_bytes_inverse(enc.len() as u64);
            assert(bytes.subrange(1, 9) =~= byte_reader::spec_u64_to_be_bytes(enc.len() as u64));
            assert(bytes.subrange(9, 9 + enc.len() as int) =~= enc);
            vstd::utf8::encode_utf8_valid_utf8(s);
            vstd::utf8::encode_utf8_decode_utf8(s);
        },
    }
}

/// The display form of a value: integers print as decimal digits, strings
/// print quoted.
pub open spec fn spec_value_render(v: ValueView) -> Seq<char> {
    match v {
        ValueView::Int(x) => crate::text::spec_decimal_digits(x as nat),
        ValueView::Str(s) => seq!['"'] + s + seq!['"'],
    }
}

/// Relies on `core::str::from_utf8`: it succeeds exactly on input that is
/// well-formed UTF-8, and the string it returns is the decoding of those
/// bytes (so its own UTF-8 form is the input, byte for byte).
#[verifier::external_body]
fn string_from_utf8(bytes: &[u8]) -> (r: Option<String>)
    ensures
        r is Some <==> valid_utf8(bytes@),
        r matches Some(s) ==> s@ == decode_utf8(bytes@),
{
    match core::str::from_utf8(bytes) {
        Ok(s) => Some(s.to_owned()),
        Err(_) => None,
    }
}

impl Value {
    /// Serialises the value into its canonical tagged encoding.
    pub fn to_bytes(&self) -> (r: Vec<u8>)
        ensures
            r@ == spec_value_bytes(self@),
            value_encodable(self@),
    {
        let mut bytes: Vec<u8> = Vec::new();
        match self {
            Value::Integer(x) => {
                bytes.push(INTEGER_TAG);
                byte_reader::push_u64_be(&mut bytes, *x);
                proof {
                    assert(bytes@ =~= spec_value_bytes(self@));
                }
            },
            Value::String(x) => {
                bytes.push(STRING_TAG);
                let data = x.as_str().as_bytes();
                byte_reader::push_u64_be(&mut bytes, data.len() as u64);
                bytes.extend_from_slice(data);
                proof {
                    assert(bytes@ =~= spec_value_bytes(self@));
                }
            },
        }
        bytes
    }

    /// Decodes one value off the front of the slice, returning the number of
    /// bytes consumed and the value, or the first format error met: an
    /// unrecognised tag, a buffer too short for the declared payload, or a
    /// string payload that is not UTF-8.
    pub fn from_bytes(bytes: &[u8]) -> (r: Result<(usize, Value), DecodeError>)
        ensures
            r matches Ok(p) ==> spec_parse_value(bytes@) matches Ok(q) && q.0 == p.0 && q.1 == p.1@
                && p.0 <= bytes@.len(),
            r matches Err(e) ==> spec_parse_value(bytes@) == Err::<(int, ValueView), DecodeError>(
                e,
            ),
    {
        if bytes.len() < 1 {
            return Err(DecodeError::Truncated);
        }
        let tag = bytes[0];
        if tag == INTEGER_TAG {
            match byte_reader::read_u64(&bytes[1..bytes.len()]) {
                None => Err(DecodeError::Truncated),
                Some(x) => {
                    proof {
                        assert(bytes@.subrange(1, bytes@.len() as int).subrange(0, 8)
                            =~= bytes@.subrange(1, 9));
                    }
                    Ok((9, Value::Integer(x)))
                },
            }
        } else if tag == STRING_TAG {
            match byte_reader::read_u64(&bytes[1..bytes.len()]) {
                None => Err(DecodeError::Truncated),
                Some(size) => {
                    proof {
                        assert(bytes@.subrange(1, bytes@.len() as int).subrange(0, 8)
                            =~= bytes@.subrange(1, 9));
                    }
                    if size > (bytes.len() - 9) as u64 {
                        return Err(DecodeError::Truncated);
                    }
                    let n = size as usize;
                    let payload = &bytes[9..9 + n];
                    match string_from_utf8(payload) {
                        None => Err(DecodeError::InvalidUtf8),
                        Some(s) => Ok((9 + n, Value::String(s))),
                    }
                },
            }
        } else {
            Err(DecodeError::UnknownTag { tag })
        }
    }

    /// Renders the value in its display form: decimal digits for an integer,
    /// the text in double quotes for a string.
    pub fn display_string(&self) -> (r: String)
        ensures
            r@ == spec_value_render(self@),
    {
        let mut out = String::new();
        match self {
            Value::Integer(x) => {
                crate::text::push_decimal(&mut out, *x);
                proof {
                    assert(out@ =~= spec_value_render(self@));
                }
            },
            Value::String(s) => {
                crate::text::push_char(&mut out, '"');
                crate::text::push_str(&mut out, s.as_str());
                crate::text::push_char(&mut out, '"');
                proof {
                    assert(out@ =~= spec_value_render(self@));
                }
            },
        }
        out
    }

    /// The kind of the value, as named by runtime type errors.
    pub fn type_of(&self) -> (r: Type)
        ensures
            r == spec_type_of(self@),
    {
        match self {
            Value::Integer(_) => Type::Integer,
            Value::String(_) => Type::String,
        }
    }
}

impl Clone for Value {
    /// Structural copy: the clone models the same value as the original.
    fn clone(&self) -> (r: Self)
        ensures
            r@ == self@,
    {
        match self {
            Value::Integer(x) => Value::Integer(*x),
            Value::String(s) => Value::String(s.clone()),
        }
    }
}

} // verus!
