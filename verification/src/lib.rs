//! A minimal stack-based bytecode virtual machine.
//!
//! The library defines a binary "chunk" format (a literal pool followed by an
//! instruction stream), a codec that serialises and parses it, a disassembler
//! that renders a chunk as text, and an interpreter that executes a chunk to
//! completion or to a typed error.

use vstd::prelude::*;

pub mod byte_reader;
pub mod chunk;
pub mod disassembler;
pub mod text;
pub mod value;
pub mod vm;

use crate::chunk::{Chunk, ChunkView};
use crate::value::{Value, ValueView};
use crate::vm::{OP_ADD, OP_LOAD_LITERAL, OP_RETURN};

verus! {

/// The literal pool of the sample program: the source-path string that by
/// convention opens every pool, then the two integers the program adds.
pub open spec fn spec_example_literals() -> Seq<ValueView> {
    seq![
        ValueView::Str("test/file.emx"@),
        ValueView::Int(120),
        ValueView::Int(130),
    ]
}

/// The sample instruction stream: load both integers, add them, return. Each
/// instruction is an opcode, its operand words, and a source-offset word.
pub open spec fn spec_example_code() -> Seq<u8> {
    seq![OP_LOAD_LITERAL] + byte_reader::spec_u32_to_be_bytes(1) + byte_reader::spec_u32_to_be_bytes(
        0,
    ) + seq![OP_LOAD_LITERAL] + byte_reader::spec_u32_to_be_bytes(2)
        + byte_reader::spec_u32_to_be_bytes(0) + seq![OP_ADD] + byte_reader::spec_u32_to_be_bytes(0)
        + seq![OP_RETURN] + byte_reader::spec_u32_to_be_bytes(1)
}

/// Hand-assembles a small sample program and serialises it: the encoded form
/// of the chunk holding [`spec_example_literals`] and [`spec_example_code`].
pub fn example_bytecode() -> (r: Vec<u8>)
    ensures
        r@ == chunk::spec_chunk_bytes(
            (ChunkView { literals: spec_example_literals(), bytecode: spec_example_code() }),
        ),
{
    let mut chunk = Chunk::new();

    // Source file path, then the operands of the addition.
    chunk.literals.push(Value::String("test/file.emx".to_owned()));
    chunk.literals.push(Value::Integer(120));
    chunk.literals.push(Value::Integer(130));

    // [opcode, ...operand words, source offset]
    chunk.bytecode.push(OP_LOAD_LITERAL);
    byte_reader::push_u32_be(&mut chunk.bytecode, 1);
    byte_reader::push_u32_be(&mut chunk.bytecode, 0);

    chunk.bytecode.push(OP_LOAD_LITERAL);
    byte_reader::push_u32_be(&mut chunk.bytecode, 2);
    byte_reader::push_u32_be(&mut chunk.bytecode, 0);

    chunk.bytecode.push(OP_ADD);
    byte_reader::push_u32_be(&mut chunk.bytecode, 0);

    chunk.bytecode.push(OP_RETURN);
    byte_reader::push_u32_be(&mut chunk.bytecode, 1);

    proof {
        assert(chunk@.literals =~= spec_example_literals());
        assert(chunk@.bytecode =~= spec_example_code());
        assert(chunk@ =~= (ChunkView {
            literals: spec_example_literals(),
            bytecode: spec_example_code(),
        }));
    }
    chunk.to_bytecode()
}

} // verus!
