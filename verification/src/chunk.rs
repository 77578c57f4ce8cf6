//! The chunk codec: the unit of loadable code (literal pool + bytecode) and
//! its binary format.
//!
//! An encoded chunk is, in order: a 4-byte magic constant, a 4-byte big-endian
//! literal count, each literal's tagged encoding back to back, then the raw
//! instruction stream to the end of the buffer. Decoding validates the magic
//! first and rejects the whole buffer on any format error; the instruction
//! stream itself is checked only later, by the disassembler or the
//! interpreter.

use crate::byte_reader;
use crate::value::{
    spec_parse_value, spec_value_bytes, value_encodable, DecodeError, Value, ValueView,
};
use vstd::prelude::*;

verus! {

broadcast use vstd::std_specs::vec::axiom_spec_len;

/// Magic constant opening every encoded chunk; a buffer that does not begin
/// with its big-endian bytes is rejected.
pub const MAGIC: u32 = 0xFFFFFFFE;

/// A chunk: an ordered literal pool addressed by index, and the bytecode to
/// execute. Immutable once built; handed to the interpreter or disassembler.
#[derive(Debug, PartialEq, Eq)]
pub struct Chunk {
    pub literals: Vec<Value>,
    pub bytecode: Vec<u8>,
}

/// The mathematical model of a [`Chunk`].
#[verifier::ext_equal]
pub struct ChunkView {
    pub literals: Seq<ValueView>,
    pub bytecode: Seq<u8>,
}

/// The models of a sequence of values, element for element.
pub open spec fn views_of_values(s: Seq<Value>) -> Seq<ValueView> {
    s.map_values(|v: Value| v@)
}

impl View for Chunk {
    type V = ChunkView;

    open spec fn view(&self) -> ChunkView {
        ChunkView { literals: views_of_values(self.literals@), bytecode: self.bytecode@ }
    }
}

/// The encoding of a literal pool: each value's tagged encoding, in pool
/// order, with no padding between them.
pub open spec fn spec_literals_bytes(lits: Seq<ValueView>) -> Seq<u8>
    decreases lits.len(),
{
    if lits.len() == 0 {
        Seq::empty()
    } else {
        spec_value_bytes(lits[0]) + spec_literals_bytes(lits.drop_first())
    }
}

/// The full encoding of a chunk: magic, literal count, literal pool, bytecode.
pub open spec fn spec_chunk_bytes(c: ChunkView) -> Seq<u8> {
    byte_reader::spec_u32_to_be_bytes(MAGIC) + byte_reader::spec_u32_to_be_bytes(
        c.literals.len() as u32,
    ) + spec_literals_bytes(c.literals) + c.bytecode
}

/// Machine limits on an encodable chunk: the pool size must fit the 4-byte
/// count field and each literal its own length field. Every chunk whose pool
/// fits the count field satisfies this once built from real values.
pub open spec fn chunk_encodable(c: ChunkView) -> bool {
    &&& c.literals.len() <= u32::MAX
    &&& forall|i: int| 0 <= i < c.literals.len() ==> value_encodable(#[trigger] c.literals[i])
}

/// Parsing `count` literals off the front of a byte sequence: the number of
/// bytes consumed and the values read, or the first format error met.
pub open spec fn spec_parse_literals(bytes: Seq<u8>, count: nat) -> Result<
    (int, Seq<ValueView>),
    DecodeError,
>
    decreases count,
{
    if count == 0 {
        Ok((0, Seq::empty()))
    } else {
        match spec_parse_value(bytes) {
            Err(e) => Err(e),
            Ok((n, v)) => match spec_parse_literals(bytes.skip(n), (count - 1) as nat) {
                Err(e) => Err(e),
                Ok((m, vs)) => Ok((n + m, seq![v] + vs)),
            },
        }
    }
}

/// Parsing a whole buffer as a chunk: the magic gate first, then the literal
/// count, then the literals; every remaining byte is the instruction stream.
pub open spec fn spec_parse_chunk(bytes: Seq<u8>) -> Result<ChunkView, DecodeError> {
    if !(bytes.len() >= 4 && bytes.subrange(0, 4) == byte_reader::spec_u32_to_be_bytes(MAGIC)) {
        Err(DecodeError::InvalidMagic)
    } else if bytes.len() < 8 {
        Err(DecodeError::Truncated)
    } else {
        let count = byte_reader::spec_u32_from_be_bytes(bytes.subrange(4, 8));
        match spec_parse_literals(bytes.skip(8), count as nat) {
            Err(e) => Err(e),
            Ok((n, vs)) => Ok(ChunkView { literals: vs, bytecode: bytes.skip(8 + n) }),
        }
    }
}

/// Parsing inverts encoding for literal pools: the pool's byte form, followed
/// by anything, parses back to exactly the pool.
pub proof fn lemma_literals_bytes_parse(lits: Seq<ValueView>, rest: Seq<u8>)
    requires
        forall|i: int| 0 <= i < lits.len() ==> value_encodable(#[trigger] lits[i]),
    ensures
        spec_parse_literals(spec_literals_bytes(lits) + rest, lits.len()) == Ok::<
            (int, Seq<ValueView>),
            DecodeError,
        >((spec_literals_bytes(lits).len() as int, lits)),
    decreases lits.len(),
{
    if lits.len() == 0 {
        assert(lits =~= Seq::<ValueView>::empty());
    } else {
        let v = lits[0];
        let tail = lits.drop_first();
        let venc = spec_value_bytes(v);
        let tailenc = spec_literals_bytes(tail);
        assert(spec_literals_bytes(lits) + rest =~= venc + (tailenc + rest));
        crate::value::lemma_value_bytes_parse(v, tailenc + rest);
        assert((venc + (tailenc + rest)).skip(venc.len() as int) =~= tailenc + rest);
        lemma_literals_bytes_parse(tail, rest);
        assert(seq![v] + tail =~= lits);
    }
}

/// The round-trip law at the format level: any encodable chunk's byte form
/// parses back to exactly that chunk, literal for literal and byte for byte.
pub proof fn lemma_chunk_bytes_parse(c: ChunkView)
    requires
        chunk_encodable(c),
    ensures
        spec_parse_chunk(spec_chunk_bytes(c)) == Ok::<ChunkView, DecodeError>(c),
{
    let bytes = spec_chunk_bytes(c);
    byte_reader::lemma_u32_be_bytes_inverse(MAGIC);
    byte_reader::lemma_u32_be_bytes_inverse(c.literals.len() as u32);
    assert(bytes.subrange(0, 4) =~= byte_reader::spec_u32_to_be_bytes(MAGIC));
    assert(bytes.subrange(4, 8) =~= byte_reader::spec_u32_to_be_bytes(c.literals.len() as u32));
    assert(bytes.skip(8) =~= spec_literals_bytes(c.literals) + c.bytecode);
    lemma_literals_bytes_parse(c.literals, c.bytecode);
    let n = spec_literals_bytes(c.literals).len() as int;
    assert(bytes.skip(8 + n) =~= c.bytecode);
    assert(ChunkView { literals: c.literals, bytecode: bytes.skip(8 + n) } =~= c);
}

/// The magic gate: a buffer whose first 4 bytes are not the magic constant
/// (or that is too short to hold them) is rejected whatever follows.
pub proof fn lemma_magic_gate(bytes: Seq<u8>)
    requires
        bytes.len() < 4 || bytes.subrange(0, 4) != byte_reader::spec_u32_to_be_bytes(MAGIC),
    ensures
        spec_parse_chunk(bytes) == Err::<ChunkView, DecodeError>(DecodeError::InvalidMagic),
{
}

impl Chunk {
    /// Creates a chunk with an empty literal pool and empty bytecode.
    pub fn new() -> (r: Chunk)
        ensures
            r@.literals.len() == 0,
            r@.bytecode.len() == 0,
    {
        Chunk { literals: Vec::new(), bytecode: Vec::new() }
    }

    /// Parses an encoded chunk. A malformed buffer yields the empty chunk;
    /// use [`parse_chunk`] to observe the format error instead.
    pub fn from_bytecode(bytecode: Vec<u8>) -> (r: Chunk)
        ensures
            ({
                match spec_parse_chunk(bytecode@) {
                    Ok(cv) => r@ == cv,
                    Err(_) => r@.literals.len() == 0 && r@.bytecode.len() == 0,
                }
            }),
    {
        match parse_chunk(bytecode) {
            Ok(chunk) => chunk,
            Err(_) => Chunk::new(),
        }
    }

    /// Serialises the chunk into its canonical byte form.
    pub fn to_bytecode(&self) -> (r: Vec<u8>)
        requires
            self@.literals.len() <= u32::MAX,
        ensures
            r@ == spec_chunk_bytes(self@),
            chunk_encodable(self@),
    {
        dump_chunk(self)
    }

    /// The first pool entry, which by convention names the source file the
    /// chunk was produced from.
    pub fn source_file_path(&self) -> (r: &Value)
        requires
            self@.literals.len() > 0,
        ensures
            r@ == self@.literals[0],
    {
        &self.literals[0]
    }
}

/// Parses a byte buffer into a chunk, or reports the first format error: a
/// missing magic constant, a truncated field, an unknown value tag, or an
/// ill-formed string payload. No partial chunk is ever returned.
pub fn parse_chunk(bytecode: Vec<u8>) -> (r: Result<Chunk, DecodeError>)
    ensures
        r matches Ok(c) ==> spec_parse_chunk(bytecode@) matches Ok(cv) && c@ == cv,
        r matches Err(e) ==> spec_parse_chunk(bytecode@) == Err::<ChunkView, DecodeError>(e),
{
    BytecodeParser::new(bytecode).parse_chunk()
}

/// Appending one value to a pool appends its encoding to the pool's encoding.
proof fn lemma_literals_bytes_push(lits: Seq<ValueView>, v: ValueView)
    ensures
        spec_literals_bytes(lits.push(v)) == spec_literals_bytes(lits) + spec_value_bytes(v),
    decreases lits.len(),
{
    if lits.len() == 0 {
        assert(lits.push(v)[0] == v);
        assert(lits.push(v).drop_first() =~= Seq::<ValueView>::empty());
        assert(spec_literals_bytes(lits.push(v)) == spec_value_bytes(v) + spec_literals_bytes(
            Seq::<ValueView>::empty(),
        ));
        assert(spec_literals_bytes(lits.push(v)) =~= spec_literals_bytes(lits) + spec_value_bytes(
            v,
        ));
    } else {
        assert(lits.push(v)[0] == lits[0]);
        assert(lits.push(v).drop_first() =~= lits.drop_first().push(v));
        lemma_literals_bytes_push(lits.drop_first(), v);
        assert(spec_literals_bytes(lits.push(v)) =~= spec_literals_bytes(lits) + spec_value_bytes(
            v,
        ));
    }
}

/// Serialises a chunk: the magic constant, the literal count, each literal's
/// tagged encoding in pool order, then the bytecode verbatim. A pure function
/// of the chunk's fields.
pub fn dump_chunk(chunk: &Chunk) -> (r: Vec<u8>)
    requires
        chunk@.literals.len() <= u32::MAX,
    ensures
        r@ == spec_chunk_bytes(chunk@),
        chunk_encodable(chunk@),
{
    let mut code: Vec<u8> = Vec::new();
    byte_reader::push_u32_be(&mut code, MAGIC);
    byte_reader::push_u32_be(&mut code, chunk.literals.len() as u32);
    let ghost header = code@;
    let mut i: usize = 0;
    while i < chunk.literals.len()
        invariant
            i <= chunk.literals.len(),
            header == byte_reader::spec_u32_to_be_bytes(MAGIC)
                + byte_reader::spec_u32_to_be_bytes(chunk@.literals.len() as u32),
            code@ == header + spec_literals_bytes(chunk@.literals.take(i as int)),
            forall|j: int| 0 <= j < i ==> value_encodable(#[trigger] chunk@.literals[j]),
        decreases chunk.literals.len() - i,
    {
        let bytes = chunk.literals[i].to_bytes();
        code.extend_from_slice(bytes.as_slice());
        proof {
            assert(chunk@.literals.take(i + 1) =~= chunk@.literals.take(i as int).push(
                chunk@.literals[i as int],
            ));
            lemma_literals_bytes_push(chunk@.literals.take(i as int), chunk@.literals[i as int]);
            assert(code@ =~= header + spec_literals_bytes(chunk@.literals.take(i + 1)));
        }
        i = i + 1;
    }
    code.extend_from_slice(chunk.bytecode.as_slice());
    proof {
        assert(chunk@.literals.take(chunk@.literals.len() as int) =~= chunk@.literals);
        assert(code@ =~= spec_chunk_bytes(chunk@));
    }
    code
}

/// A cursor-based parser over an owned byte buffer, consumed by one call of
/// [`BytecodeParser::parse_chunk`].
pub struct BytecodeParser {
    bytecode: Vec<u8>,
    offset: usize,
}

impl BytecodeParser {
    /// The buffer being parsed.
    pub closed spec fn spec_bytes(&self) -> Seq<u8> {
        self.bytecode@
    }

    /// The cursor: how many bytes have been consumed.
    pub closed spec fn spec_offset(&self) -> int {
        self.offset as int
    }

    spec fn wf(&self) -> bool {
        self.offset <= self.bytecode@.len()
    }

    /// Creates a parser positioned at the start of the buffer.
    pub fn new(bytecode: Vec<u8>) -> (r: BytecodeParser)
        ensures
            r.spec_bytes() == bytecode@,
            r.spec_offset() == 0,
    {
        BytecodeParser { bytecode, offset: 0 }
    }

    /// Parses the whole buffer as a chunk, as [`spec_parse_chunk`] describes.
    pub fn parse_chunk(self) -> (r: Result<Chunk, DecodeError>)
        requires
            self.spec_offset() == 0,
        ensures
            r matches Ok(c) ==> spec_parse_chunk(self.spec_bytes()) matches Ok(cv) && c@ == cv,
            r matches Err(e) ==> spec_parse_chunk(self.spec_bytes()) == Err::<
                ChunkView,
                DecodeError,
            >(e),
    {
        let mut this = self;
        let ghost bytes = this.bytecode@;
        match this.read_magic() {
            Err(e) => {
                return Err(e);
            },
            Ok(u) => u,
        }
        let literals = match this.read_literals() {
            Err(e) => {
                return Err(e);
            },
            Ok(l) => l,
        };
        let end = this.bytecode.len();
        let rest = vstd::slice::slice_to_vec(&this.bytecode[this.offset..end]);
        proof {
            let count = byte_reader::spec_u32_from_be_bytes(bytes.subrange(4, 8));
            let p = spec_parse_literals(bytes.skip(8), count as nat);
            assert(bytes.subrange(this.offset as int, bytes.len() as int) =~= bytes.skip(
                8 + p->Ok_0.0,
            ));
        }
        Ok(Chunk { literals, bytecode: rest })
    }

    /// Reads the 4 bytes at the cursor as a big-endian 32-bit integer, without
    /// advancing; yields nothing when fewer than 4 bytes remain.
    fn current_u32(&self) -> (r: Option<u32>)
        requires
            self.wf(),
        ensures
            self.bytecode@.len() - self.offset >= 4 ==> r == Some(
                byte_reader::spec_u32_from_be_bytes(
                    self.bytecode@.subrange(self.offset as int, self.offset + 4),
                ),
            ),
            self.bytecode@.len() - self.offset < 4 ==> r is None,
    {
        let end = self.bytecode.len();
        let r = byte_reader::read_u32(&self.bytecode[self.offset..end]);
        proof {
            if self.bytecode@.len() - self.offset >= 4 {
                assert(self.bytecode@.subrange(self.offset as int, end as int).subrange(0, 4)
                    =~= self.bytecode@.subrange(self.offset as int, self.offset + 4));
            }
        }
        r
    }

    /// Validates the magic constant at the start of the buffer and steps past
    /// it; rejects the buffer otherwise.
    fn read_magic(&mut self) -> (r: Result<(), DecodeError>)
        requires
            old(self).wf(),
            old(self).offset == 0,
        ensures
            final(self).bytecode@ == old(self).bytecode@,
            final(self).wf(),
            ({
                let bytes = old(self).bytecode@;
                match r {
                    Ok(u) => bytes.len() >= 4 && bytes.subrange(0, 4)
                        == byte_reader::spec_u32_to_be_bytes(MAGIC) && final(self).offset == 4,
                    Err(e) => e == DecodeError::InvalidMagic && !(bytes.len() >= 4
                        && bytes.subrange(0, 4) == byte_reader::spec_u32_to_be_bytes(MAGIC)),
                }
            }),
    {
        match self.current_u32() {
            Some(word) => {
                if word == MAGIC {
                    proof {
                        byte_reader::lemma_u32_be_bytes_complete(
                            self.bytecode@.subrange(0, 4),
                        );
                    }
                    self.advance(4);
                    Ok(())
                } else {
                    proof {
                        byte_reader::lemma_u32_be_bytes_inverse(MAGIC);
                    }
                    Err(DecodeError::InvalidMagic)
                }
            },
            None => Err(DecodeError::InvalidMagic),
        }
    }

    /// Reads the literal count and then that many tagged values, propagating
    /// the first format error.
    fn read_literals(&mut self) -> (r: Result<Vec<Value>, DecodeError>)
        requires
            old(self).wf(),
        ensures
            final(self).bytecode@ == old(self).bytecode@,
            final(self).wf(),
            ({
                let bytes = old(self).bytecode@;
                let off = old(self).offset as int;
                match r {
                    Ok(lits) => bytes.len() - off >= 4 && ({
                        let count = byte_reader::spec_u32_from_be_bytes(
                            bytes.subrange(off, off + 4),
                        );
                        &&& spec_parse_literals(bytes.skip(off + 4), count as nat) matches Ok(p)
                            && p.1 == views_of_values(lits@) && final(self).offset == off + 4 + p.0
                    }),
                    Err(e) => {
                        if bytes.len() - off < 4 {
                            e == DecodeError::Truncated
                        } else {
                            let count = byte_reader::spec_u32_from_be_bytes(
                                bytes.subrange(off, off + 4),
                            );
                            spec_parse_literals(bytes.skip(off + 4), count as nat) == Err::<
                                (int, Seq<ValueView>),
                                DecodeError,
                            >(e)
                        }
                    },
                }
            }),
    {
        let ghost bytes = self.bytecode@;
        let ghost off0 = self.offset as int;
        let count = match self.current_u32() {
            None => {
                return Err(DecodeError::Truncated);
            },
            Some(c) => c,
        };
        self.advance(4);
        let mut literals: Vec<Value> = Vec::new();
        let mut i: u32 = 0;
        while i < count
            invariant
                bytes == old(self).bytecode@,
                off0 == old(self).offset as int,
                bytes.len() - off0 >= 4,
                count == byte_reader::spec_u32_from_be_bytes(bytes.subrange(off0, off0 + 4)),
                self.bytecode@ == bytes,
                self.wf(),
                i <= count,
                off0 + 4 <= self.offset <= bytes.len(),
                spec_parse_literals(bytes.skip(off0 + 4), count as nat) == (match spec_parse_literals(
                    bytes.skip(self.offset as int),
                    (count - i) as nat,
                ) {
                    Ok(p) => Ok::<(int, Seq<ValueView>), DecodeError>(
                        ((self.offset - (off0 + 4)) + p.0, views_of_values(literals@) + p.1),
                    ),
                    Err(e) => Err(e),
                }),
            decreases count - i,
        {
            let ghost cur = self.offset as int;
            let ghost lits_before = literals@;
            let lit = match self.read_literal() {
                Err(e) => {
                    return Err(e);
                },
                Ok(v) => v,
            };
            literals.push(lit);
            i = i + 1;
            proof {
                let p = spec_parse_value(bytes.skip(cur));
                let n = p->Ok_0.0;
                assert(bytes.skip(cur).skip(n) =~= bytes.skip(cur + n));
                assert(views_of_values(lits_before.push(lit)) =~= views_of_values(lits_before)
                    + seq![lit@]);
                match spec_parse_literals(bytes.skip(cur + n), (count - i) as nat) {
                    Ok(q) => {
                        assert((views_of_values(lits_before) + seq![lit@]) + q.1
                            =~= views_of_values(lits_before) + (seq![lit@] + q.1));
                    },
                    Err(_) => {},
                }
            }
        }
        proof {
            assert(spec_parse_literals(bytes.skip(self.offset as int), 0) == Ok::<
                (int, Seq<ValueView>),
                DecodeError,
            >((0, Seq::empty())));
            assert(views_of_values(literals@) + Seq::<ValueView>::empty() =~= views_of_values(
                literals@,
            ));
        }
        Ok(literals)
    }

    /// Reads one tagged value at the cursor and steps past it.
    fn read_literal(&mut self) -> (r: Result<Value, DecodeError>)
        requires
            old(self).wf(),
        ensures
            final(self).bytecode@ == old(self).bytecode@,
            final(self).wf(),
            ({
                let bytes = old(self).bytecode@;
                let off = old(self).offset as int;
                match r {
                    Ok(v) => spec_parse_value(bytes.skip(off)) matches Ok(p) && p.1 == v@
                        && final(self).offset == off + p.0,
                    Err(e) => spec_parse_value(bytes.skip(off)) == Err::<
                        (int, ValueView),
                        DecodeError,
                    >(e),
                }
            }),
    {
        let end = self.bytecode.len();
        match Value::from_bytes(&self.bytecode[self.offset..end]) {
            Err(e) => Err(e),
            Ok((n, v)) => {
                self.advance(n);
                Ok(v)
            },
        }
    }

    /// Moves the cursor forward by `n` bytes.
    fn advance(&mut self, n: usize)
        requires
            old(self).offset + n <= old(self).bytecode@.len(),
        ensures
            final(self).bytecode@ == old(self).bytecode@,
            final(self).offset == old(self).offset + n,
    {
        proof {
            vstd::std_specs::vec::axiom_spec_len(&self.bytecode);
        }
        self.offset = self.offset + n;
    }
}

} // verus!
