//! The decoder: a cursor that reads a chunk's bytes back as instructions.

use crate::bytecode::chunk::{BinaryOp, Chunk, ChunkView, Instruction, OpCode};
use crate::text::{decimal, decimal_text};
use vstd::prelude::*;
use vstd::string::StringExecFns;

verus! {

/// Where a decoded instruction stands: the offset of its opcode byte and the
/// source line of that byte.
#[derive(Debug, Clone, Copy, PartialEq, Eq, Structural)]
pub struct InstructionMetadata {
    pub line: u32,
    pub pos: usize,
}

impl InstructionMetadata {
    pub fn new(pos: usize, line: u32) -> (metadata: InstructionMetadata)
        ensures
            metadata.pos == pos,
            metadata.line == line,
    {
        InstructionMetadata { pos, line }
    }
}

/// The ways in which the bytes at one position can fail to be an instruction.
#[derive(Debug, Clone, Copy, PartialEq, Eq, Structural)]
pub enum BytecodeParseError {
    /// The byte is no opcode.
    UnknownInstruction(u8),
    /// The operand of a constant instruction indexes no entry of the pool.
    InvalidConstantIndex(u8),
    /// The code ends where the operand of this opcode should stand.
    UnexpectedEndOfBytecode(OpCode),
}

impl BytecodeParseError {
    /// The error in words.
    pub open spec fn message_text(self) -> Seq<char> {
        match self {
            BytecodeParseError::UnknownInstruction(code) => "Unknown ("@ + decimal(code as nat)
                + ")"@,
            BytecodeParseError::InvalidConstantIndex(index) => OpCode::Constant.spec_name()
                + " (Invalid Index: "@ + decimal(index as nat) + ")"@,
            BytecodeParseError::UnexpectedEndOfBytecode(op) =>
                "Unexpected End of Bytecode when parsing arguments for "@ + op.spec_name(),
        }
    }

    /// The error in words, as a listing shows it.
    pub fn message(&self) -> (text: String)
        ensures
            text@ == self.message_text(),
    {
        match *self {
            BytecodeParseError::UnknownInstruction(code) => {
                let mut text = String::from_str("Unknown (");
                text.append(decimal_text(code as u64).as_str());
                text.append(")");
                text
            },
            BytecodeParseError::InvalidConstantIndex(index) => {
                let mut text = String::from_str(OpCode::Constant.name());
                text.append(" (Invalid Index: ");
                text.append(decimal_text(index as u64).as_str());
                text.append(")");
                text
            },
            BytecodeParseError::UnexpectedEndOfBytecode(op) => {
                let mut text = String::from_str(
                    "Unexpected End of Bytecode when parsing arguments for ",
                );
                text.append(op.name());
                text
            },
        }
    }
}

/// What one decode step yields: where it read, and what it found there.
pub type Decoded = (InstructionMetadata, Result<Instruction, BytecodeParseError>);

/// Whether nothing can be decoded at `pos`: the position is past the code,
/// or past the lines.
pub open spec fn exhausted(chunk: ChunkView, pos: int) -> bool {
    pos >= chunk.code.len() || pos >= chunk.lines.len()
}

/// What the operand of a constant instruction, expected at `pos`, resolves
/// to.
pub open spec fn constant_at(chunk: ChunkView, pos: int) -> Result<
    Instruction,
    BytecodeParseError,
> {
    if pos >= chunk.code.len() {
        Err(BytecodeParseError::UnexpectedEndOfBytecode(OpCode::Constant))
    } else if chunk.code[pos] >= chunk.constants.len() {
        Err(BytecodeParseError::InvalidConstantIndex(chunk.code[pos]))
    } else {
        Ok(Instruction::Constant(chunk.constants[chunk.code[pos] as int]))
    }
}

/// What the bytes at `pos` decode to, where `0 <= pos < chunk.code.len()`.
pub open spec fn parsed_at(chunk: ChunkView, pos: int) -> Result<Instruction, BytecodeParseError> {
    match OpCode::of_byte(chunk.code[pos]) {
        None => Err(BytecodeParseError::UnknownInstruction(chunk.code[pos])),
        Some(OpCode::Return) => Ok(Instruction::Return),
        Some(OpCode::Constant) => constant_at(chunk, pos + 1),
        Some(OpCode::Negate) => Ok(Instruction::Negate),
        Some(OpCode::Add) => Ok(Instruction::BinaryOp(BinaryOp::Add)),
        Some(OpCode::Subtract) => Ok(Instruction::BinaryOp(BinaryOp::Subtract)),
        Some(OpCode::Multiply) => Ok(Instruction::BinaryOp(BinaryOp::Multiply)),
        Some(OpCode::Divide) => Ok(Instruction::BinaryOp(BinaryOp::Divide)),
    }
}

/// Where the cursor stands after the step at `pos`: behind the opcode byte,
/// and for a constant instruction behind its operand byte too, whether or
/// not the code holds that byte.
pub open spec fn next_pos(chunk: ChunkView, pos: int) -> int {
    if OpCode::of_byte(chunk.code[pos]) == Some(OpCode::Constant) {
        pos + 2
    } else {
        pos + 1
    }
}

/// The decode step at `pos`, where the chunk is not exhausted.
pub open spec fn step_at(chunk: ChunkView, pos: int) -> Decoded {
    (InstructionMetadata { line: chunk.lines[pos], pos: pos as usize }, parsed_at(chunk, pos))
}

/// All the decode steps from `pos` to the end, in order. A failed step does
/// not end the sequence.
pub open spec fn decode_from(chunk: ChunkView, pos: int) -> Seq<Decoded>
    decreases chunk.code.len() + 1 - pos,
{
    if pos < 0 || exhausted(chunk, pos) {
        Seq::empty()
    } else {
        seq![step_at(chunk, pos)] + decode_from(chunk, next_pos(chunk, pos))
    }
}

/// A cursor over the code of a chunk. It only moves forward, and it can
/// come to stand one byte behind the code, where the operand of a last
/// constant opcode is missing.
pub struct BytecodeParser<'a> {
    pub chunk: &'a Chunk,
    pub pos: usize,
}

impl<'a> BytecodeParser<'a> {
    /// Reads the operand of a constant instruction at the cursor. The
    /// cursor moves on by one byte, whether or not the operand is there
    /// and whatever it indexes.
    pub fn read_constant(&mut self) -> (r: Result<Instruction, BytecodeParseError>)
        requires
            old(self).pos < usize::MAX,
        ensures
            r == constant_at(old(self).chunk@, old(self).pos as int),
            final(self).chunk == old(self).chunk,
            final(self).pos == old(self).pos + 1,
    {
        self.pos += 1;
        if self.pos - 1 < self.chunk.code.len() {
            let constant_id = self.chunk.code[self.pos - 1];
            if (constant_id as usize) < self.chunk.constants.len() {
                Ok(Instruction::Constant(self.chunk.constants[constant_id as usize]))
            } else {
                Err(BytecodeParseError::InvalidConstantIndex(constant_id))
            }
        } else {
            Err(BytecodeParseError::UnexpectedEndOfBytecode(OpCode::Constant))
        }
    }

    /// Decodes the instruction at the cursor and moves the cursor behind it.
    ///
    /// Returns `None`, and leaves the cursor where it is, once the chunk is
    /// exhausted. A step that fails still moves the cursor, so the next
    /// call decodes what follows. The code must be shorter than
    /// `usize::MAX`, so that the cursor can stand behind a missing operand.
    pub fn next(&mut self) -> (r: Option<Decoded>)
        requires
            old(self).chunk@.code.len() < usize::MAX,
        ensures
            final(self).chunk == old(self).chunk,
            exhausted(old(self).chunk@, old(self).pos as int) ==> r is None && final(self).pos
                == old(self).pos,
            !exhausted(old(self).chunk@, old(self).pos as int) ==> r == Some(
                step_at(old(self).chunk@, old(self).pos as int),
            ) && final(self).pos == next_pos(old(self).chunk@, old(self).pos as int),
    {
        let pos = self.pos;
        if pos >= self.chunk.code.len() || pos >= self.chunk.lines.len() {
            return None;
        }
        let code = self.chunk.code[pos];
        let line = self.chunk.lines[pos];
        self.pos += 1;
        let metadata = InstructionMetadata::new(pos, line);
        let instruction = match OpCode::try_from(code) {
            Ok(op) => match op {
                OpCode::Return => Ok(Instruction::Return),
                OpCode::Constant => self.read_constant(),
                OpCode::Negate => Ok(Instruction::Negate),
                OpCode::Add => Ok(Instruction::BinaryOp(BinaryOp::Add)),
                OpCode::Subtract => Ok(Instruction::BinaryOp(BinaryOp::Subtract)),
                OpCode::Multiply => Ok(Instruction::BinaryOp(BinaryOp::Multiply)),
                OpCode::Divide => Ok(Instruction::BinaryOp(BinaryOp::Divide)),
            },
            Err(_) => Err(BytecodeParseError::UnknownInstruction(code)),
        };
        Some((metadata, instruction))
    }
}

impl Chunk {
    /// A cursor at the start of the chunk.
    pub fn iter(&self) -> (parser: BytecodeParser<'_>)
        ensures
            parser.chunk == self,
            parser.pos == 0,
    {
        BytecodeParser { chunk: self, pos: 0 }
    }

    /// All the decode steps of the chunk, from the start to the end.
    pub fn decode(&self) -> (steps: Vec<Decoded>)
        requires
            self@.code.len() < usize::MAX,
        ensures
            steps@ == decode_from(self@, 0),
    {
        let mut parser = self.iter();
        let mut steps: Vec<Decoded> = Vec::new();
        loop
            invariant
                parser.chunk == self,
                self@.code.len() < usize::MAX,
                decode_from(self@, 0) == steps@ + decode_from(self@, parser.pos as int),
            decreases self@.code.len() + 1 - parser.pos,
        {
            match parser.next() {
                Some(step) => {
                    proof {
                        assert(steps@ + (seq![step] + decode_from(self@, parser.pos as int))
                            =~= steps@.push(step) + decode_from(self@, parser.pos as int));
                    }
                    steps.push(step);
                },
                None => {
                    proof {
                        assert(steps@ + Seq::<Decoded>::empty() =~= steps@);
                    }
                    return steps;
                },
            }
        }
    }
}

/// A constant opcode on the last byte of the code decodes to one failed
/// step, and no step follows it: the cursor then stands one byte behind the
/// code.
pub proof fn lemma_truncated_constant_ends(chunk: ChunkView, pos: int)
    requires
        0 <= pos < chunk.lines.len(),
        pos + 1 == chunk.code.len(),
        chunk.code[pos] == OpCode::Constant.byte(),
    ensures
        decode_from(chunk, pos) == seq![step_at(chunk, pos)],
        next_pos(chunk, pos) == chunk.code.len() + 1,
        parsed_at(chunk, pos) == Err::<Instruction, BytecodeParseError>(
            BytecodeParseError::UnexpectedEndOfBytecode(OpCode::Constant),
        ),
{
    assert(decode_from(chunk, pos + 2) =~= Seq::<Decoded>::empty());
    assert(seq![step_at(chunk, pos)] + Seq::<Decoded>::empty() =~= seq![step_at(chunk, pos)]);
}

/// A constant instruction whose operand indexes no entry of the pool fails
/// with that index, and decoding goes on behind the operand.
pub proof fn lemma_invalid_index_resumes(chunk: ChunkView, pos: int)
    requires
        0 <= pos < chunk.lines.len(),
        pos + 1 < chunk.code.len(),
        chunk.code[pos] == OpCode::Constant.byte(),
        chunk.code[pos + 1] >= chunk.constants.len(),
    ensures
        parsed_at(chunk, pos) == Err::<Instruction, BytecodeParseError>(
            BytecodeParseError::InvalidConstantIndex(chunk.code[pos + 1]),
        ),
        decode_from(chunk, pos) == seq![step_at(chunk, pos)] + decode_from(chunk, pos + 2),
{
}

/// The cursor only moves forward: a pass from `pos` makes at most one step
/// for each byte of code that is left.
pub proof fn lemma_steps_bounded(chunk: ChunkView, pos: int)
    requires
        0 <= pos,
    ensures
        pos < next_pos(chunk, pos) <= pos + 2,
        pos <= chunk.code.len() ==> decode_from(chunk, pos).len() <= chunk.code.len() - pos,
        pos > chunk.code.len() ==> decode_from(chunk, pos).len() == 0,
    decreases chunk.code.len() + 1 - pos,
{
    if !exhausted(chunk, pos) {
        lemma_steps_bounded(chunk, next_pos(chunk, pos));
    }
}

/// Whether, if the step is a constant instruction, its operand byte has the
/// line of its opcode byte.
pub open spec fn operand_shares_line(chunk: ChunkView, step: Decoded) -> bool {
    step.1 is Ok && step.1->Ok_0 is Constant ==> step.0.pos + 1 < chunk.lines.len()
        && chunk.lines[step.0.pos + 1] == step.0.line
}

/// Appending only adds at the end: what a chunk holds stays where it is,
/// and a well-formed chunk stays well formed where the instructions fit.
pub proof fn lemma_appended_extends(chunk: ChunkView, items: Seq<(u32, Instruction)>)
    ensures
        chunk.code.len() <= chunk.appended(items).code.len(),
        chunk.lines.len() <= chunk.appended(items).lines.len(),
        chunk.constants.len() <= chunk.appended(items).constants.len(),
        forall|i: int|
            0 <= i < chunk.code.len() ==> #[trigger] chunk.appended(items).code[i] == chunk.code[i],
        forall|i: int|
            0 <= i < chunk.lines.len() ==> #[trigger] chunk.appended(items).lines[i]
                == chunk.lines[i],
        forall|i: int|
            0 <= i < chunk.constants.len() ==> #[trigger] chunk.appended(items).constants[i]
                == chunk.constants[i],
        chunk.wf() && chunk.fits(items) ==> chunk.appended(items).wf(),
    decreases items.len(),
{
    if items.len() != 0 {
        let next = chunk.with_instruction(items[0].0, items[0].1);
        lemma_appended_extends(next, items.drop_first());
        assert forall|i: int| 0 <= i < chunk.code.len() implies #[trigger] chunk.appended(
            items,
        ).code[i] == chunk.code[i] by {
            assert(next.code[i] == chunk.code[i]);
        }
        assert forall|i: int| 0 <= i < chunk.lines.len() implies #[trigger] chunk.appended(
            items,
        ).lines[i] == chunk.lines[i] by {
            assert(next.lines[i] == chunk.lines[i]);
        }
        assert forall|i: int| 0 <= i < chunk.constants.len() implies #[trigger] chunk.appended(
            items,
        ).constants[i] == chunk.constants[i] by {
            assert(next.constants[i] == chunk.constants[i]);
        }
    }
}

/// Decoding what was appended to a well-formed chunk, from where the chunk
/// ended, gives the appended instructions back, each with its line.
pub proof fn lemma_decode_appended(chunk: ChunkView, items: Seq<(u32, Instruction)>)
    requires
        chunk.wf(),
        chunk.fits(items),
    ensures
        decode_from(chunk.appended(items), chunk.code.len() as int).len() == items.len(),
        forall|i: int|
            #![trigger decode_from(chunk.appended(items), chunk.code.len() as int)[i]]
            0 <= i < items.len() ==> {
                let step = decode_from(chunk.appended(items), chunk.code.len() as int)[i];
                &&& step.0.line == items[i].0
                &&& step.1 == Ok::<Instruction, BytecodeParseError>(items[i].1)
                &&& chunk.appended(items).code.len() <= usize::MAX ==> operand_shares_line(
                    chunk.appended(items),
                    step,
                )
            },
    decreases items.len(),
{
    let built = chunk.appended(items);
    let pos = chunk.code.len() as int;
    if items.len() != 0 {
        let (line, instruction) = items[0];
        let next = chunk.with_instruction(line, instruction);
        let rest = items.drop_first();
        lemma_appended_extends(next, rest);
        lemma_decode_appended(next, rest);
        assert(built == next.appended(rest));
        assert(built.code[pos] == next.code[pos]);
        assert(built.lines[pos] == next.lines[pos]);
        if let Instruction::Constant(value) = instruction {
            assert(built.code[pos + 1] == next.code[pos + 1]);
            assert(built.lines[pos + 1] == next.lines[pos + 1]);
            assert(built.constants[chunk.constants.len() as int] == next.constants[chunk.constants.len() as int]);
        }
        assert(step_at(built, pos).1 == Ok::<Instruction, BytecodeParseError>(instruction));
        assert(next_pos(built, pos) == next.code.len());
        let tail = decode_from(built, next.code.len() as int);
        assert(decode_from(built, pos) == seq![step_at(built, pos)] + tail);
        assert forall|i: int|
            #![trigger decode_from(built, pos)[i]]
            0 <= i < items.len() implies {
            let step = decode_from(built, pos)[i];
            &&& step.0.line == items[i].0
            &&& step.1 == Ok::<Instruction, BytecodeParseError>(items[i].1)
            &&& built.code.len() <= usize::MAX ==> operand_shares_line(built, step)
        } by {
            if i > 0 {
                assert(decode_from(built, pos)[i] == tail[i - 1]);
                assert(rest[i - 1] == items[i]);
            }
        }
    }
}

/// Round trip: a chunk built from nothing by appending instructions that
/// all fit decodes, from the start, to exactly those instructions, in
/// order, each with the line it was appended with, and no step fails.
pub proof fn lemma_round_trip(items: Seq<(u32, Instruction)>)
    requires
        ChunkView::empty().fits(items),
    ensures
        decode_from(ChunkView::empty().appended(items), 0).len() == items.len(),
        forall|i: int|
            #![trigger decode_from(ChunkView::empty().appended(items), 0)[i]]
            0 <= i < items.len() ==> {
                let step = decode_from(ChunkView::empty().appended(items), 0)[i];
                step.0.line == items[i].0 && step.1 == Ok::<Instruction, BytecodeParseError>(
                    items[i].1,
                )
            },
{
    lemma_decode_appended(ChunkView::empty(), items);
}

/// Line alignment: a chunk built from nothing by appending has one line for
/// each byte of code, holds at most `MAX_CONSTANTS` constants, and the
/// operand byte of each of its constant instructions has the line of the
/// opcode byte before it.
pub proof fn lemma_lines_aligned(items: Seq<(u32, Instruction)>)
    requires
        ChunkView::empty().fits(items),
        ChunkView::empty().appended(items).code.len() <= usize::MAX,
    ensures
        ChunkView::empty().appended(items).wf(),
        forall|i: int|
            0 <= i < decode_from(ChunkView::empty().appended(items), 0).len()
                ==> operand_shares_line(
                ChunkView::empty().appended(items),
                #[trigger] decode_from(ChunkView::empty().appended(items), 0)[i],
            ),
{
    lemma_appended_extends(ChunkView::empty(), items);
    lemma_decode_appended(ChunkView::empty(), items);
}

} // verus!
