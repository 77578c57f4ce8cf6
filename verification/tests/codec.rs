//! Tests of the byte reader, the tagged value encoding, and the chunk codec.

use stack_vm::byte_reader::{push_u32_be, push_u64_be, read_u16, read_u32, read_u64};
use stack_vm::chunk::{dump_chunk, parse_chunk, Chunk, MAGIC};
use stack_vm::example_bytecode;
use stack_vm::value::{DecodeError, Value};

#[test]
fn read_u64_big_endian() {
    let bytes = [0x01u8, 0x02, 0x03, 0x04, 0x05, 0x06, 0x07, 0x08, 0xFF];
    assert_eq!(read_u64(&bytes), Some(0x0102030405060708));
}

#[test]
fn read_u64_too_short() {
    let bytes = [0x01u8, 0x02, 0x03, 0x04, 0x05, 0x06, 0x07];
    assert_eq!(read_u64(&bytes), None);
}

#[test]
fn read_u32_big_endian() {
    let bytes = [0xFFu8, 0xFF, 0xFF, 0xFE];
    assert_eq!(read_u32(&bytes), Some(MAGIC));
    assert_eq!(read_u32(&bytes[..3]), None);
}

#[test]
fn read_u16_big_endian() {
    let bytes = [0x12u8, 0x34, 0x56];
    assert_eq!(read_u16(&bytes), Some(0x1234));
    assert_eq!(read_u16(&bytes[..1]), None);
}

#[test]
fn push_big_endian_words() {
    let mut out: Vec<u8> = Vec::new();
    push_u32_be(&mut out, 0x01020304);
    assert_eq!(out, vec![0x01, 0x02, 0x03, 0x04]);
    push_u64_be(&mut out, 0x0102030405060708);
    assert_eq!(
        out,
        vec![0x01, 0x02, 0x03, 0x04, 0x01, 0x02, 0x03, 0x04, 0x05, 0x06, 0x07, 0x08]
    );
}

#[test]
fn integer_value_encoding() {
    let v = Value::Integer(5);
    assert_eq!(v.to_bytes(), vec![0, 0, 0, 0, 0, 0, 0, 0, 5]);
}

#[test]
fn string_value_encoding() {
    let v = Value::String("hi".to_owned());
    assert_eq!(v.to_bytes(), vec![1, 0, 0, 0, 0, 0, 0, 0, 2, 0x68, 0x69]);
}

#[test]
fn value_from_bytes_round_trip() {
    let ints = [0u64, 1, 120, u64::MAX];
    for x in ints {
        let v = Value::Integer(x);
        let bytes = v.to_bytes();
        let (n, back) = Value::from_bytes(&bytes).unwrap();
        assert_eq!(n, bytes.len());
        assert_eq!(back, v);
    }
    let texts = ["", "hi", "test/file.emx", "héllo wörld", "日本語"];
    for t in texts {
        let v = Value::String(t.to_owned());
        let bytes = v.to_bytes();
        let (n, back) = Value::from_bytes(&bytes).unwrap();
        assert_eq!(n, bytes.len());
        assert_eq!(back, v);
    }
}

#[test]
fn value_from_bytes_ignores_trailing_data() {
    let mut bytes = Value::Integer(7).to_bytes();
    let consumed = bytes.len();
    bytes.extend([0xAA, 0xBB]);
    let (n, back) = Value::from_bytes(&bytes).unwrap();
    assert_eq!(n, consumed);
    assert_eq!(back, Value::Integer(7));
}

#[test]
fn value_from_bytes_unknown_tag() {
    let bytes = [7u8, 0, 0, 0, 0, 0, 0, 0, 0];
    assert_eq!(Value::from_bytes(&bytes), Err(DecodeError::UnknownTag { tag: 7 }));
}

#[test]
fn value_from_bytes_truncated() {
    assert_eq!(Value::from_bytes(&[]), Err(DecodeError::Truncated));
    assert_eq!(Value::from_bytes(&[0u8, 1, 2]), Err(DecodeError::Truncated));
    // A string whose announced length exceeds the remaining buffer.
    let bytes = [1u8, 0, 0, 0, 0, 0, 0, 0, 9, 0x61];
    assert_eq!(Value::from_bytes(&bytes), Err(DecodeError::Truncated));
}

#[test]
fn value_from_bytes_invalid_utf8() {
    let bytes = [1u8, 0, 0, 0, 0, 0, 0, 0, 1, 0xFF];
    assert_eq!(Value::from_bytes(&bytes), Err(DecodeError::InvalidUtf8));
}

#[test]
fn chunk_round_trip() {
    let mut chunk = Chunk::new();
    chunk.literals.push(Value::String("test/file.emx".to_owned()));
    chunk.literals.push(Value::Integer(120));
    chunk.literals.push(Value::Integer(130));
    chunk.bytecode.extend([1, 0, 0, 0, 1, 0, 0, 0, 0, 2, 0, 0, 0, 0, 0, 0, 0, 0, 1]);
    let bytes = chunk.to_bytecode();
    let back = parse_chunk(bytes).unwrap();
    assert_eq!(back.literals, chunk.literals);
    assert_eq!(back.bytecode, chunk.bytecode);
    assert_eq!(back, chunk);
}

#[test]
fn empty_chunk_round_trip() {
    let chunk = Chunk::new();
    let bytes = chunk.to_bytecode();
    assert_eq!(bytes, vec![0xFF, 0xFF, 0xFF, 0xFE, 0, 0, 0, 0]);
    let back = parse_chunk(bytes).unwrap();
    assert_eq!(back, chunk);
}

#[test]
fn magic_gate_rejects_other_prefixes() {
    // Wrong first four bytes: rejected whatever follows.
    let bytes = vec![0u8, 0, 0, 0, 0, 0, 0, 0];
    assert_eq!(parse_chunk(bytes), Err(DecodeError::InvalidMagic));
    let bytes = vec![0xFFu8, 0xFF, 0xFF, 0xFF, 0, 0, 0, 1, 0, 0, 0, 0, 0, 0, 0, 0, 0];
    assert_eq!(parse_chunk(bytes), Err(DecodeError::InvalidMagic));
    // Too short to hold the magic at all.
    assert_eq!(parse_chunk(vec![]), Err(DecodeError::InvalidMagic));
    assert_eq!(parse_chunk(vec![0xFF, 0xFF, 0xFF]), Err(DecodeError::InvalidMagic));
}

#[test]
fn magic_without_count_is_truncated() {
    assert_eq!(parse_chunk(vec![0xFF, 0xFF, 0xFF, 0xFE]), Err(DecodeError::Truncated));
    assert_eq!(parse_chunk(vec![0xFF, 0xFF, 0xFF, 0xFE, 0, 0]), Err(DecodeError::Truncated));
}

#[test]
fn parse_chunk_propagates_literal_errors() {
    // Announces one literal, whose tag byte is unknown.
    let bytes = vec![0xFF, 0xFF, 0xFF, 0xFE, 0, 0, 0, 1, 9];
    assert_eq!(parse_chunk(bytes), Err(DecodeError::UnknownTag { tag: 9 }));
    // Announces one literal, but the buffer ends first.
    let bytes = vec![0xFF, 0xFF, 0xFF, 0xFE, 0, 0, 0, 1];
    assert_eq!(parse_chunk(bytes), Err(DecodeError::Truncated));
}

#[test]
fn parse_chunk_takes_rest_as_bytecode() {
    let bytes = vec![0xFF, 0xFF, 0xFF, 0xFE, 0, 0, 0, 0, 2, 0, 0, 0, 0];
    let chunk = parse_chunk(bytes).unwrap();
    assert_eq!(chunk.literals.len(), 0);
    assert_eq!(chunk.bytecode, vec![2, 0, 0, 0, 0]);
}

#[test]
fn from_bytecode_parses_and_defaults() {
    let mut chunk = Chunk::new();
    chunk.literals.push(Value::Integer(3));
    let bytes = chunk.to_bytecode();
    let back = Chunk::from_bytecode(bytes);
    assert_eq!(back, chunk);
    // A malformed buffer yields the empty chunk rather than a panic.
    let empty = Chunk::from_bytecode(vec![1, 2, 3]);
    assert_eq!(empty.literals.len(), 0);
    assert_eq!(empty.bytecode.len(), 0);
}

#[test]
fn dump_chunk_layout() {
    let mut chunk = Chunk::new();
    chunk.literals.push(Value::Integer(0x78));
    chunk.bytecode.extend([0, 0, 0, 0, 1]);
    let bytes = dump_chunk(&chunk);
    let mut expected = vec![0xFF, 0xFF, 0xFF, 0xFE, 0, 0, 0, 1];
    expected.extend([0, 0, 0, 0, 0, 0, 0, 0, 0x78]);
    expected.extend([0, 0, 0, 0, 1]);
    assert_eq!(bytes, expected);
}

#[test]
fn source_file_path_is_first_literal() {
    let mut chunk = Chunk::new();
    chunk.literals.push(Value::String("test/file.emx".to_owned()));
    chunk.literals.push(Value::Integer(1));
    assert_eq!(
        chunk.source_file_path(),
        &Value::String("test/file.emx".to_owned())
    );
}

#[test]
fn example_bytecode_exact_bytes() {
    let bytes = example_bytecode();
    let mut expected = vec![0xFFu8, 0xFF, 0xFF, 0xFE, 0, 0, 0, 3];
    // Literal 0: the string "test/file.emx".
    expected.push(1);
    expected.extend([0, 0, 0, 0, 0, 0, 0, 13]);
    expected.extend("test/file.emx".bytes());
    // Literals 1 and 2: the integers 120 and 130.
    expected.extend([0, 0, 0, 0, 0, 0, 0, 0, 120]);
    expected.extend([0, 0, 0, 0, 0, 0, 0, 0, 130]);
    // LoadLiteral 1, LoadLiteral 2, Add, Return, each with its offset word.
    expected.extend([1, 0, 0, 0, 1, 0, 0, 0, 0]);
    expected.extend([1, 0, 0, 0, 2, 0, 0, 0, 0]);
    expected.extend([2, 0, 0, 0, 0]);
    expected.extend([0, 0, 0, 0, 1]);
    assert_eq!(bytes, expected);
}
