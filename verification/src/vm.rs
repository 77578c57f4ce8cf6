//! The virtual machine: a stack interpreter over a chunk's instruction stream.
//!
//! An instruction is one opcode byte, a fixed number of 4-byte big-endian
//! operand words depending on the opcode, and a trailing 4-byte source-offset
//! word carried for diagnostics on every instruction (read and discarded by
//! execution). Execution runs until an explicit `Return` or until the first
//! error; every error is terminal and reported as a typed result, never as a
//! panic. Integer addition wraps modulo 2^64.

use crate::byte_reader;
use crate::chunk::{views_of_values, Chunk, ChunkView};
use crate::value::{spec_type_of, Type, Value, ValueView};
use vstd::prelude::*;

verus! {

broadcast use vstd::std_specs::vec::axiom_spec_len;

/// Opcode byte of `Return`. Opcode byte values are stable: renumbering them
/// is a format change.
pub const OP_RETURN: u8 = 0;

/// Opcode byte of `LoadLiteral`.
pub const OP_LOAD_LITERAL: u8 = 1;

/// Opcode byte of `Add`.
pub const OP_ADD: u8 = 2;

/// The number of operand-word columns the disassembler prints for every
/// instruction, so that columns align across opcodes.
pub const MAX_INSTRUCTION_ARGS_COUNT: usize = 3;

/// The closed set of operations: returning, loading a literal onto the stack,
/// and integer addition.
#[derive(Clone, Copy, Debug, PartialEq, Eq, Structural)]
pub enum Op {
    Return,
    LoadLiteral,
    Add,
}

/// The total decoding of an opcode byte: the operation it names, or nothing.
pub open spec fn spec_op_from_byte(byte: u8) -> Option<Op> {
    if byte == OP_RETURN {
        Some(Op::Return)
    } else if byte == OP_LOAD_LITERAL {
        Some(Op::LoadLiteral)
    } else if byte == OP_ADD {
        Some(Op::Add)
    } else {
        None
    }
}

/// How many 4-byte operand words follow an operation's opcode byte (not
/// counting the trailing source-offset word).
pub open spec fn spec_operand_words(op: Op) -> nat {
    match op {
        Op::Return => 0,
        Op::LoadLiteral => 1,
        Op::Add => 0,
    }
}

impl Op {
    /// Decodes an opcode byte; an unrecognised byte yields nothing, which
    /// every consumer treats as a fatal error.
    pub fn from_byte(byte: u8) -> (r: Option<Op>)
        ensures
            r == spec_op_from_byte(byte),
    {
        if byte == OP_RETURN {
            Some(Op::Return)
        } else if byte == OP_LOAD_LITERAL {
            Some(Op::LoadLiteral)
        } else if byte == OP_ADD {
            Some(Op::Add)
        } else {
            None
        }
    }

    /// The operation's opcode byte.
    pub fn opcode_byte(self) -> (r: u8)
        ensures
            spec_op_from_byte(r) == Some(self),
    {
        match self {
            Op::Return => OP_RETURN,
            Op::LoadLiteral => OP_LOAD_LITERAL,
            Op::Add => OP_ADD,
        }
    }

    /// The operation's operand-word count, shared by the interpreter and the
    /// disassembler so the two cannot drift apart.
    pub fn operand_words(self) -> (r: usize)
        ensures
            r == spec_operand_words(self),
    {
        match self {
            Op::Return => 0,
            Op::LoadLiteral => 1,
            Op::Add => 0,
        }
    }
}

/// An execution error: the terminal result of running a malformed or
/// ill-typed instruction stream. Each carries the byte offset of the opcode
/// of the instruction that failed (for a stream that ends where an opcode was
/// expected, the offset where it was expected).
#[derive(Clone, Copy, Debug, PartialEq, Eq, Structural)]
pub enum Error {
    /// The byte at `offset` names no operation.
    UnknownOpcode { byte: u8, offset: usize },
    /// The stream ends before the instruction at `offset` is complete, or
    /// ends without a `Return`.
    TruncatedInstruction { offset: usize },
    /// A `LoadLiteral` index at or past the end of the literal pool.
    LiteralIndexOutOfRange { index: u32, offset: usize },
    /// A popping instruction found too few values on the stack.
    StackUnderflow { offset: usize },
    /// An operand had the wrong kind; `found` names the first offending
    /// value, counted from the top of the stack.
    TypeMismatch { expected: Type, found: Type, offset: usize },
}

/// What running a chunk yields: success or a typed error, together with the
/// final operand stack (bottom first). On an error no instruction is
/// partially applied: the stack is as it stood before the failing
/// instruction.
#[verifier::ext_equal]
pub enum RunOutcome {
    Success { stack: Seq<ValueView> },
    Failure { error: Error, stack: Seq<ValueView> },
}

/// The big-step semantics of the dispatch loop, from instruction offset `ip`
/// with the given stack: one instruction is decoded and applied per step
/// until `Return` halts execution or an error ends it. Addition wraps modulo
/// 2^64. Every instruction advances `ip`, so execution always terminates.
pub open spec fn spec_run(c: ChunkView, stack: Seq<ValueView>, ip: nat) -> RunOutcome
    decreases c.bytecode.len() - ip,
{
    let len = c.bytecode.len();
    if ip >= len {
        RunOutcome::Failure { error: Error::TruncatedInstruction { offset: ip as usize }, stack }
    } else {
        let byte = c.bytecode[ip as int];
        match spec_op_from_byte(byte) {
            None => RunOutcome::Failure {
                error: Error::UnknownOpcode { byte, offset: ip as usize },
                stack,
            },
            Some(Op::Return) => {
                if ip + 5 <= len {
                    RunOutcome::Success { stack }
                } else {
                    RunOutcome::Failure {
                        error: Error::TruncatedInstruction { offset: ip as usize },
                        stack,
                    }
                }
            },
            Some(Op::LoadLiteral) => {
                if ip + 9 <= len {
                    let index = byte_reader::spec_u32_from_be_bytes(
                        c.bytecode.subrange(ip + 1 as int, ip + 5 as int),
                    );
                    if index < c.literals.len() {
                        spec_run(c, stack.push(c.literals[index as int]), ip + 9)
                    } else {
                        RunOutcome::Failure {
                            error: Error::LiteralIndexOutOfRange { index, offset: ip as usize },
                            stack,
                        }
                    }
                } else {
                    RunOutcome::Failure {
                        error: Error::TruncatedInstruction { offset: ip as usize },
                        stack,
                    }
                }
            },
            Some(Op::Add) => {
                if ip + 5 <= len {
                    if stack.len() < 2 {
                        RunOutcome::Failure {
                            error: Error::StackUnderflow { offset: ip as usize },
                            stack,
                        }
                    } else {
                        let top = stack[stack.len() - 1];
                        let second = stack[stack.len() - 2];
                        match (second, top) {
                            (ValueView::Int(x), ValueView::Int(y)) => spec_run(
                                c,
                                stack.take(stack.len() - 2).push(
                                    ValueView::Int(vstd::wrapping::u64_specs::wrapping_add(x, y)),
                                ),
                                ip + 5,
                            ),
                            _ => RunOutcome::Failure {
                                error: Error::TypeMismatch {
                                    expected: Type::Integer,
                                    found: if !(top is Int) {
                                        spec_type_of(top)
                                    } else {
                                        spec_type_of(second)
                                    },
                                    offset: ip as usize,
                                },
                                stack,
                            },
                        }
                    }
                } else {
                    RunOutcome::Failure {
                        error: Error::TruncatedInstruction { offset: ip as usize },
                        stack,
                    }
                }
            },
        }
    }
}

/// Out-of-range literal law: a `LoadLiteral` whose embedded index is not
/// below the pool size fails with exactly the literal-index error, leaving
/// the stack as it stood.
pub proof fn lemma_load_literal_out_of_range(c: ChunkView, stack: Seq<ValueView>, ip: nat)
    requires
        ip + 9 <= c.bytecode.len(),
        spec_op_from_byte(c.bytecode[ip as int]) == Some(Op::LoadLiteral),
        byte_reader::spec_u32_from_be_bytes(c.bytecode.subrange(ip + 1 as int, ip + 5 as int))
            >= c.literals.len(),
    ensures
        spec_run(c, stack, ip) == (RunOutcome::Failure {
            error: Error::LiteralIndexOutOfRange {
                index: byte_reader::spec_u32_from_be_bytes(c.bytecode.subrange(ip + 1 as int, ip + 5 as int)),
                offset: ip as usize,
            },
            stack,
        }),
{
}

/// Stack-underflow law: `Add` against a stack holding fewer than two values
/// fails with the underflow error rather than reading out of bounds, and
/// leaves the stack as it stood.
pub proof fn lemma_add_stack_underflow(c: ChunkView, stack: Seq<ValueView>, ip: nat)
    requires
        ip + 5 <= c.bytecode.len(),
        spec_op_from_byte(c.bytecode[ip as int]) == Some(Op::Add),
        stack.len() < 2,
    ensures
        spec_run(c, stack, ip) == (RunOutcome::Failure {
            error: Error::StackUnderflow { offset: ip as usize },
            stack,
        }),
{
}

/// Type-mismatch law: `Add` when the top two stack values are not both
/// integers fails with a type mismatch naming the first offending value from
/// the top, and pushes nothing: the stack is left as it stood.
pub proof fn lemma_add_type_mismatch(c: ChunkView, stack: Seq<ValueView>, ip: nat)
    requires
        ip + 5 <= c.bytecode.len(),
        spec_op_from_byte(c.bytecode[ip as int]) == Some(Op::Add),
        stack.len() >= 2,
        !(stack.last() is Int) || !(stack[stack.len() - 2] is Int),
    ensures
        spec_run(c, stack, ip) == (RunOutcome::Failure {
            error: Error::TypeMismatch {
                expected: Type::Integer,
                found: if !(stack.last() is Int) {
                    spec_type_of(stack.last())
                } else {
                    spec_type_of(stack[stack.len() - 2])
                },
                offset: ip as usize,
            },
            stack,
        }),
{
}

/// The interpreter: an operand stack, the chunk being executed, and the
/// instruction pointer into its bytecode. Created empty, loaded with one
/// chunk per [`VM::interprete`] call; no state survives from one chunk to the
/// next.
pub struct VM {
    stack: Vec<Value>,
    chunk: Chunk,
    ip: usize,
}

/// The mathematical model of a [`VM`].
#[verifier::ext_equal]
pub struct VMView {
    pub stack: Seq<ValueView>,
    pub chunk: ChunkView,
    pub ip: nat,
}

impl View for VM {
    type V = VMView;

    closed spec fn view(&self) -> VMView {
        VMView { stack: views_of_values(self.stack@), chunk: self.chunk@, ip: self.ip as nat }
    }
}

impl VM {
    /// Creates a machine with an empty stack and an empty chunk.
    pub fn new() -> (r: VM)
        ensures
            r@.stack.len() == 0,
            r@.chunk.literals.len() == 0,
            r@.chunk.bytecode.len() == 0,
            r@.ip == 0,
    {
        VM { stack: Vec::new(), chunk: Chunk::new(), ip: 0 }
    }

    /// The operand stack, bottom first.
    pub fn stack(&self) -> (r: &Vec<Value>)
        ensures
            views_of_values(r@) == self@.stack,
    {
        &self.stack
    }

    /// Adopts the chunk, resets the stack and the instruction pointer, and
    /// runs the bytecode from offset 0 to completion or to the first error,
    /// exactly as [`spec_run`] describes. The final stack (ending with the
    /// computed values on success; untouched by the failing instruction on an
    /// error) remains readable through [`VM::stack`].
    pub fn interprete(&mut self, chunk: Chunk) -> (r: Result<(), Error>)
        ensures
            final(self)@.chunk == chunk@,
            ({
                let outcome = spec_run(chunk@, Seq::empty(), 0);
                match outcome {
                    RunOutcome::Success { stack } => r is Ok && final(self)@.stack == stack,
                    RunOutcome::Failure { error, stack } => r == Err::<(), Error>(error)
                        && final(self)@.stack == stack,
                }
            }),
    {
        self.chunk = chunk;
        self.ip = 0;
        self.stack = Vec::new();
        proof {
            assert(views_of_values(Seq::<Value>::empty()) =~= Seq::<ValueView>::empty());
        }
        self.run()
    }

    /// Renders a chunk as its textual listing under the given display name,
    /// or reports the first fatal format error in its instruction stream.
    pub fn disassemble(&self, chunk: &Chunk, name: &'static str) -> (r: Result<String, Error>)
        ensures
            ({
                let d = crate::disassembler::spec_disassembly(chunk@, name@);
                match r {
                    Ok(text) => d matches Ok(t) && text@ == t,
                    Err(e) => d == Err::<Seq<char>, Error>(e),
                }
            }),
    {
        crate::disassembler::disassemble_chunk(chunk, name)
    }

    /// The dispatch loop: one instruction per iteration until `Return` or an
    /// error.
    fn run(&mut self) -> (r: Result<(), Error>)
        ensures
            final(self)@.chunk == old(self)@.chunk,
            ({
                let outcome = spec_run(old(self)@.chunk, old(self)@.stack, old(self)@.ip);
                match outcome {
                    RunOutcome::Success { stack } => r is Ok && final(self)@.stack == stack,
                    RunOutcome::Failure { error, stack } => r == Err::<(), Error>(error)
                        && final(self)@.stack == stack,
                }
            }),
    {
        loop
            invariant
                self@.chunk == old(self)@.chunk,
                spec_run(old(self)@.chunk, old(self)@.stack, old(self)@.ip) == spec_run(
                    self@.chunk,
                    self@.stack,
                    self@.ip,
                ),
            decreases self@.chunk.bytecode.len() - self@.ip,
        {
            let ghost stack0 = self@.stack;
            let len = self.chunk.bytecode.len();
            if self.ip >= len {
                return Err(Error::TruncatedInstruction { offset: self.ip });
            }
            let offset = self.ip;
            let byte = self.chunk.bytecode[offset];
            let op = match Op::from_byte(byte) {
                None => {
                    return Err(Error::UnknownOpcode { byte, offset });
                },
                Some(op) => op,
            };
            match op {
                Op::Return => {
                    if len - offset < 5 {
                        return Err(Error::TruncatedInstruction { offset });
                    }
                    return Ok(());
                },
                Op::LoadLiteral => {
                    if len - offset < 9 {
                        return Err(Error::TruncatedInstruction { offset });
                    }
                    let index = byte_reader::read_u32(
                        &self.chunk.bytecode[offset + 1..len],
                    ).unwrap();
                    proof {
                        assert(self.chunk.bytecode@.subrange(offset + 1, len as int).subrange(0, 4)
                            =~= self.chunk.bytecode@.subrange(offset + 1, offset + 5));
                    }
                    if index as usize >= self.chunk.literals.len() {
                        return Err(Error::LiteralIndexOutOfRange { index, offset });
                    }
                    let literal = self.chunk.literals[index as usize].clone();
                    self.stack.push(literal);
                    self.ip = offset + 9;
                    proof {
                        assert(self@.stack =~= stack0.push(
                            self@.chunk.literals[index as int],
                        ));
                    }
                },
                Op::Add => {
                    if len - offset < 5 {
                        return Err(Error::TruncatedInstruction { offset });
                    }
                    if self.stack.len() < 2 {
                        return Err(Error::StackUnderflow { offset });
                    }
                    let top = match self.stack.pop() {
                        Some(Value::Integer(y)) => y,
                        Some(other) => {
                            let found = other.type_of();
                            self.stack.push(other);
                            proof {
                                assert(self@.stack =~= stack0);
                            }
                            return Err(
                                Error::TypeMismatch { expected: Type::Integer, found, offset },
                            );
                        },
                        None => {
                            return Err(Error::StackUnderflow { offset });
                        },
                    };
                    let second = match self.stack.pop() {
                        Some(Value::Integer(x)) => x,
                        Some(other) => {
                            let found = other.type_of();
                            self.stack.push(other);
                            self.stack.push(Value::Integer(top));
                            proof {
                                assert(self@.stack =~= stack0);
                            }
                            return Err(
                                Error::TypeMismatch { expected: Type::Integer, found, offset },
                            );
                        },
                        None => {
                            return Err(Error::StackUnderflow { offset });
                        },
                    };
                    self.stack.push(Value::Integer(second.wrapping_add(top)));
                    self.ip = offset + 5;
                    proof {
                        assert(self@.stack =~= stack0.take(stack0.len() - 2).push(
                            ValueView::Int(vstd::wrapping::u64_specs::wrapping_add(second, top)),
                        ));
                    }
                },
            }
        }
    }
}

} // verus!
