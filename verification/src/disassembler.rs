//! The disassembler: a pure, read-only rendering of a chunk as text.
//!
//! The listing holds a header line, a literals section (index and display
//! form of each pool entry), and a code section that decodes one instruction
//! per line: the byte offset, the mnemonic padded to eight columns, each
//! operand word as a zero-padded decimal field, blank padding up to the
//! instruction set's maximum operand count so that columns align, and the
//! trailing source-offset word in angle brackets. An unrecognised opcode byte
//! is a fatal format error: the instruction length is opcode-dependent, so
//! rendering cannot safely continue past it.

use crate::byte_reader;
use crate::chunk::{views_of_values, Chunk, ChunkView};
use crate::text::{push_padded_decimal, push_str, spec_padded_decimal};
use crate::value::{spec_value_render, ValueView};
use crate::vm::{spec_op_from_byte, spec_operand_words, Error, Op};
use vstd::prelude::*;

verus! {

broadcast use vstd::std_specs::vec::axiom_spec_len;

/// The mnemonic column: the operation's name padded with spaces to eight
/// columns.
pub open spec fn spec_mnemonic(op: Op) -> Seq<char> {
    match op {
        Op::Return => "Return  "@,
        Op::LoadLiteral => "LoadLit "@,
        Op::Add => "Add     "@,
    }
}

/// The operand columns of one instruction: each operand word rendered as a
/// zero-padded decimal field after one separating space.
pub open spec fn spec_operands_text(bytecode: Seq<u8>, ip: nat, op: Op) -> Seq<char> {
    if spec_operand_words(op) == 1 {
        " "@ + spec_padded_decimal(
            byte_reader::spec_u32_from_be_bytes(
                bytecode.subrange(ip + 1 as int, ip + 5 as int),
            ) as nat,
        )
    } else {
        Seq::<char>::empty()
    }
}

/// The blank text filling unused operand slots, five columns per slot, so
/// that the source-offset column aligns across opcodes.
pub open spec fn spec_operand_padding(op: Op) -> Seq<char> {
    if spec_operand_words(op) == 1 {
        "          "@
    } else {
        "               "@
    }
}

/// The byte size of one encoded instruction: the opcode, its operand words,
/// and the trailing source-offset word.
pub open spec fn spec_instruction_size(op: Op) -> nat {
    1 + 4 * spec_operand_words(op) + 4
}

/// One rendered instruction line.
pub open spec fn spec_instruction_line(bytecode: Seq<u8>, ip: nat, op: Op) -> Seq<char> {
    let argbase = ip + 1 + 4 * spec_operand_words(op);
    "  "@ + spec_padded_decimal(ip) + " "@ + spec_mnemonic(op) + spec_operands_text(
        bytecode,
        ip,
        op,
    ) + spec_operand_padding(op) + " <"@ + spec_padded_decimal(
        byte_reader::spec_u32_from_be_bytes(
            bytecode.subrange(argbase as int, argbase + 4 as int),
        ) as nat,
    ) + ">\n"@
}

/// The literal-pool lines from index `i` on: one line per entry, with its
/// index and its display form.
pub open spec fn spec_literal_lines(lits: Seq<ValueView>, i: int) -> Seq<char>
    decreases lits.len() - i,
{
    if i < 0 || i >= lits.len() {
        Seq::<char>::empty()
    } else {
        "  "@ + spec_padded_decimal(i as nat) + " "@ + spec_value_render(lits[i]) + "\n"@
            + spec_literal_lines(lits, i + 1)
    }
}

/// The instruction lines from byte offset `ip` on, or the first fatal format
/// error: an opcode byte that names no operation, or a stream that ends
/// mid-instruction.
pub open spec fn spec_code_lines(bytecode: Seq<u8>, ip: nat) -> Result<Seq<char>, Error>
    decreases bytecode.len() - ip,
{
    if ip >= bytecode.len() {
        Ok(Seq::<char>::empty())
    } else {
        let byte = bytecode[ip as int];
        match spec_op_from_byte(byte) {
            None => Err(Error::UnknownOpcode { byte, offset: ip as usize }),
            Some(op) => {
                if ip + spec_instruction_size(op) <= bytecode.len() {
                    match spec_code_lines(bytecode, ip + spec_instruction_size(op)) {
                        Err(e) => Err(e),
                        Ok(rest) => Ok(spec_instruction_line(bytecode, ip, op) + rest),
                    }
                } else {
                    Err(Error::TruncatedInstruction { offset: ip as usize })
                }
            },
        }
    }
}

/// The full listing under a display name: header, literals section, code
/// section; or the first fatal format error met in the code section.
pub open spec fn spec_disassembly(c: ChunkView, name: Seq<char>) -> Result<Seq<char>, Error> {
    match spec_code_lines(c.bytecode, 0) {
        Err(e) => Err(e),
        Ok(code) => Ok(
            "-- "@ + name + " --\n"@ + name + ".data:\n"@ + spec_literal_lines(c.literals, 0)
                + "\n"@ + name + ".code:\n"@ + code + "\n"@,
        ),
    }
}

/// The operation's mnemonic, padded with spaces to eight columns.
fn mnemonic(op: Op) -> (r: &'static str)
    ensures
        r@ == spec_mnemonic(op),
{
    match op {
        Op::Return => "Return  ",
        Op::LoadLiteral => "LoadLit ",
        Op::Add => "Add     ",
    }
}

/// A single-use renderer walking a chunk's instruction stream.
pub struct Disassembler<'a> {
    chunk: &'a Chunk,
    chunk_name: &'static str,
    ip: usize,
}

impl<'a> Disassembler<'a> {
    /// The chunk being rendered.
    pub closed spec fn spec_chunk(&self) -> ChunkView {
        self.chunk@
    }

    /// The display name printed in the section headers.
    pub closed spec fn spec_name(&self) -> Seq<char> {
        self.chunk_name@
    }

    /// The render cursor into the bytecode.
    pub closed spec fn spec_ip(&self) -> int {
        self.ip as int
    }

    /// Creates a renderer positioned at the start of the stream.
    pub fn new(chunk: &'a Chunk, chunk_name: &'static str) -> (r: Self)
        ensures
            r.spec_chunk() == chunk@,
            r.spec_name() == chunk_name@,
            r.spec_ip() == 0,
    {
        Disassembler { ip: 0, chunk_name, chunk }
    }

    /// Renders the whole chunk, exactly as [`spec_disassembly`] describes.
    pub fn disassemble(self) -> (r: Result<String, Error>)
        requires
            self.spec_ip() == 0,
        ensures
            ({
                let d = spec_disassembly(self.spec_chunk(), self.spec_name());
                match r {
                    Ok(text) => d matches Ok(t) && text@ == t,
                    Err(e) => d == Err::<Seq<char>, Error>(e),
                }
            }),
    {
        let mut this = self;
        let mut result = String::new();
        push_str(&mut result, "-- ");
        push_str(&mut result, this.chunk_name);
        push_str(&mut result, " --\n");
        let lit_text = this.disassemble_literals();
        push_str(&mut result, lit_text.as_str());
        let code_text = match this.disassemble_instructions() {
            Err(e) => {
                return Err(e);
            },
            Ok(t) => t,
        };
        push_str(&mut result, code_text.as_str());
        proof {
            let d = spec_disassembly(self.spec_chunk(), self.spec_name());
            assert(result@ =~= d->Ok_0);
        }
        Ok(result)
    }

    /// Renders the literals section: one line per pool entry.
    fn disassemble_literals(&self) -> (r: String)
        ensures
            r@ == self.spec_name() + ".data:\n"@ + spec_literal_lines(
                self.spec_chunk().literals,
                0,
            ) + "\n"@,
    {
        let mut result = String::new();
        push_str(&mut result, self.chunk_name);
        push_str(&mut result, ".data:\n");
        let ghost base = result@;
        let ghost mut built = Seq::<char>::empty();
        let ghost lits = self.spec_chunk().literals;
        let mut index: usize = 0;
        while index < self.chunk.literals.len()
            invariant
                lits == self.spec_chunk().literals,
                base == self.spec_name() + ".data:\n"@,
                index <= lits.len(),
                result@ == base + built,
                spec_literal_lines(lits, 0) == built + spec_literal_lines(lits, index as int),
            decreases lits.len() - index,
        {
            push_str(&mut result, "  ");
            push_padded_decimal(&mut result, index as u64);
            push_str(&mut result, " ");
            let ds = self.chunk.literals[index].display_string();
            push_str(&mut result, ds.as_str());
            push_str(&mut result, "\n");
            proof {
                let line = "  "@ + spec_padded_decimal(index as nat) + " "@ + spec_value_render(
                    lits[index as int],
                ) + "\n"@;
                assert(result@ =~= base + (built + line));
                assert(spec_literal_lines(lits, index as int) =~= line + spec_literal_lines(
                    lits,
                    index + 1,
                ));
                built = built + line;
            }
            index = index + 1;
        }
        push_str(&mut result, "\n");
        proof {
            assert(spec_literal_lines(lits, index as int) =~= Seq::<char>::empty());
            assert(spec_literal_lines(lits, 0) =~= built);
            assert(result@ =~= self.spec_name() + ".data:\n"@ + spec_literal_lines(lits, 0)
                + "\n"@);
        }
        result
    }

    /// Renders the code section, decoding one instruction per line; stops
    /// with a fatal error on an unknown opcode or a truncated instruction.
    fn disassemble_instructions(&mut self) -> (r: Result<String, Error>)
        requires
            old(self).spec_ip() == 0,
        ensures
            ({
                let d = spec_code_lines(old(self).spec_chunk().bytecode, 0);
                match r {
                    Ok(text) => d matches Ok(code) && text@ == old(self).spec_name() + ".code:\n"@
                        + code + "\n"@,
                    Err(e) => d == Err::<Seq<char>, Error>(e),
                }
            }),
    {
        let mut result = String::new();
        push_str(&mut result, self.chunk_name);
        push_str(&mut result, ".code:\n");
        let ghost base = result@;
        let ghost mut built = Seq::<char>::empty();
        let ghost bc = self.chunk@.bytecode;
        while self.ip < self.chunk.bytecode.len()
            invariant
                self.chunk == old(self).chunk,
                self.chunk_name == old(self).chunk_name,
                bc == self.chunk@.bytecode,
                base == old(self).spec_name() + ".code:\n"@,
                self.ip <= bc.len(),
                result@ == base + built,
                ({
                    match spec_code_lines(bc, self.ip as nat) {
                        Ok(rest) => spec_code_lines(bc, 0) == Ok::<Seq<char>, Error>(built + rest),
                        Err(e) => spec_code_lines(bc, 0) == Err::<Seq<char>, Error>(e),
                    }
                }),
            decreases bc.len() - self.ip,
        {
            let byte = self.chunk.bytecode[self.ip];
            let op = match Op::from_byte(byte) {
                None => {
                    return Err(Error::UnknownOpcode { byte, offset: self.ip });
                },
                Some(op) => op,
            };
            let words = op.operand_words();
            proof {
                assert(words <= 1);
            }
            let size = 1 + 4 * words + 4;
            if self.chunk.bytecode.len() - self.ip < size {
                return Err(Error::TruncatedInstruction { offset: self.ip });
            }
            let ghost ip0 = self.ip as nat;
            let line = self.disassemble_instruction(op);
            push_str(&mut result, line.as_str());
            proof {
                assert(result@ =~= base + (built + line@));
                match spec_code_lines(bc, self.ip as nat) {
                    Ok(rest) => {
                        assert(built + (line@ + rest) =~= (built + line@) + rest);
                    },
                    Err(_) => {},
                }
                built = built + line@;
            }
        }
        push_str(&mut result, "\n");
        proof {
            assert(spec_code_lines(bc, self.ip as nat) == Ok::<Seq<char>, Error>(
                Seq::<char>::empty(),
            ));
            assert(built + Seq::<char>::empty() =~= built);
            assert(result@ =~= old(self).spec_name() + ".code:\n"@ + built + "\n"@);
        }
        Ok(result)
    }

    /// Renders one instruction line at the cursor and steps past the
    /// instruction.
    fn disassemble_instruction(&mut self, op: Op) -> (r: String)
        requires
            0 <= old(self).spec_ip(),
            old(self).spec_ip() + spec_instruction_size(op) <= old(self).spec_chunk().bytecode.len(),
        ensures
            final(self).chunk == old(self).chunk,
            final(self).chunk_name == old(self).chunk_name,
            final(self).spec_ip() == old(self).spec_ip() + spec_instruction_size(op),
            r@ == spec_instruction_line(
                old(self).spec_chunk().bytecode,
                old(self).spec_ip() as nat,
                op,
            ),
    {
        proof {
            vstd::std_specs::vec::axiom_spec_len(&self.chunk.bytecode);
        }
        let ghost bc = self.chunk@.bytecode;
        let ghost ip0 = self.spec_ip() as nat;
        let mut text = String::new();
        push_str(&mut text, "  ");
        push_padded_decimal(&mut text, self.ip as u64);
        push_str(&mut text, " ");
        push_str(&mut text, mnemonic(op));
        self.ip = self.ip + 1;
        let words = op.operand_words();
        proof {
            assert(words <= 1);
        }
        if words == 1 {
            let end = self.chunk.bytecode.len();
            let word = byte_reader::read_u32(&self.chunk.bytecode[self.ip..end]).unwrap();
            proof {
                assert(bc.subrange(self.ip as int, end as int).subrange(0, 4) =~= bc.subrange(
                    ip0 + 1 as int,
                    ip0 + 5 as int,
                ));
            }
            push_str(&mut text, " ");
            push_padded_decimal(&mut text, word as u64);
            self.ip = self.ip + 4;
            push_str(&mut text, "          ");
        } else {
            push_str(&mut text, "               ");
        }
        push_str(&mut text, " <");
        let end = self.chunk.bytecode.len();
        let soff = byte_reader::read_u32(&self.chunk.bytecode[self.ip..end]).unwrap();
        proof {
            let argbase = ip0 + 1 + 4 * spec_operand_words(op);
            assert(bc.subrange(self.ip as int, end as int).subrange(0, 4) =~= bc.subrange(
                argbase as int,
                argbase + 4 as int,
            ));
        }
        push_padded_decimal(&mut text, soff as u64);
        push_str(&mut text, ">\n");
        self.ip = self.ip + 4;
        proof {
            assert(text@ =~= spec_instruction_line(bc, ip0, op));
        }
        text
    }
}

/// Renders a chunk as its textual listing under the given display name, or
/// reports the first fatal format error in the instruction stream.
pub fn disassemble_chunk(chunk: &Chunk, chunk_name: &'static str) -> (r: Result<String, Error>)
    ensures
        ({
            let d = spec_disassembly(chunk@, chunk_name@);
            match r {
                Ok(text) => d matches Ok(t) && text@ == t,
                Err(e) => d == Err::<Seq<char>, Error>(e),
            }
        }),
{
    Disassembler::new(chunk, chunk_name).disassemble()
}

} // verus!
