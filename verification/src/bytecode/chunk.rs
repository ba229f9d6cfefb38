//! Instructions, their encoding, and the chunk that stores them.

use crate::value::Value;
use vstd::prelude::*;
use vstd::std_specs::convert::FromSpecImpl;
use vstd::std_specs::convert::TryFromSpecImpl;
use vstd::string::StringExecFns;

verus! {

/// The byte that starts the encoding of an instruction.
#[derive(Debug, Clone, Copy, PartialEq, Eq, Structural)]
pub enum OpCode {
    /// Return from the current function.
    Return,
    /// Load a constant; one operand byte, the constant's index in the pool.
    Constant,
    Negate,
    Add,
    Subtract,
    Multiply,
    Divide,
}

impl OpCode {
    /// The byte that encodes this opcode.
    pub open spec fn byte(self) -> u8 {
        match self {
            OpCode::Return => 1,
            OpCode::Constant => 2,
            OpCode::Negate => 3,
            OpCode::Add => 4,
            OpCode::Subtract => 5,
            OpCode::Multiply => 6,
            OpCode::Divide => 7,
        }
    }

    /// The opcode that a byte encodes, if it encodes one.
    pub open spec fn of_byte(byte: u8) -> Option<OpCode> {
        if byte == 1 {
            Some(OpCode::Return)
        } else if byte == 2 {
            Some(OpCode::Constant)
        } else if byte == 3 {
            Some(OpCode::Negate)
        } else if byte == 4 {
            Some(OpCode::Add)
        } else if byte == 5 {
            Some(OpCode::Subtract)
        } else if byte == 6 {
            Some(OpCode::Multiply)
        } else if byte == 7 {
            Some(OpCode::Divide)
        } else {
            None
        }
    }

    /// The opcode's name.
    pub open spec fn spec_name(self) -> Seq<char> {
        match self {
            OpCode::Return => "Return"@,
            OpCode::Constant => "Constant"@,
            OpCode::Negate => "Negate"@,
            OpCode::Add => "Add"@,
            OpCode::Subtract => "Subtract"@,
            OpCode::Multiply => "Multiply"@,
            OpCode::Divide => "Divide"@,
        }
    }

    /// The opcode's name.
    pub fn name(self) -> (name: &'static str)
        ensures
            name@ == self.spec_name(),
    {
        match self {
            OpCode::Return => "Return",
            OpCode::Constant => "Constant",
            OpCode::Negate => "Negate",
            OpCode::Add => "Add",
            OpCode::Subtract => "Subtract",
            OpCode::Multiply => "Multiply",
            OpCode::Divide => "Divide",
        }
    }

    /// How many operand bytes follow this opcode.
    pub open spec fn operands(self) -> nat {
        if self == OpCode::Constant {
            1
        } else {
            0
        }
    }

    /// Decoding undoes encoding, and only the seven opcode bytes decode.
    pub proof fn lemma_byte_round_trip(op: OpCode, byte: u8)
        ensures
            OpCode::of_byte(op.byte()) == Some(op),
            OpCode::of_byte(byte) == Some(op) <==> byte == op.byte(),
            OpCode::of_byte(byte) is Some <==> 1 <= byte <= 7,
    {
    }
}

impl TryFrom<u8> for OpCode {
    type Error = ();

    fn try_from(value: u8) -> (r: Result<OpCode, ()>) {
        match value {
            1 => Ok(OpCode::Return),
            2 => Ok(OpCode::Constant),
            3 => Ok(OpCode::Negate),
            4 => Ok(OpCode::Add),
            5 => Ok(OpCode::Subtract),
            6 => Ok(OpCode::Multiply),
            7 => Ok(OpCode::Divide),
            _ => Err(()),
        }
    }
}

impl TryFromSpecImpl<u8> for OpCode {
    open spec fn obeys_try_from_spec() -> bool {
        true
    }

    open spec fn try_from_spec(value: u8) -> Result<OpCode, ()> {
        match OpCode::of_byte(value) {
            Some(op) => Ok(op),
            None => Err(()),
        }
    }
}

impl From<OpCode> for u8 {
    fn from(value: OpCode) -> (r: u8) {
        match value {
            OpCode::Return => 1,
            OpCode::Constant => 2,
            OpCode::Negate => 3,
            OpCode::Add => 4,
            OpCode::Subtract => 5,
            OpCode::Multiply => 6,
            OpCode::Divide => 7,
        }
    }
}

impl FromSpecImpl<OpCode> for u8 {
    open spec fn obeys_from_spec() -> bool {
        true
    }

    open spec fn from_spec(value: OpCode) -> u8 {
        value.byte()
    }
}

/// The four arithmetic operators that take two operands.
#[derive(Debug, Clone, Copy, PartialEq, Eq, Structural)]
pub enum BinaryOp {
    Add,
    Subtract,
    Multiply,
    Divide,
}

impl BinaryOp {
    /// The opcode that encodes this operator.
    pub open spec fn spec_opcode(self) -> OpCode {
        match self {
            BinaryOp::Add => OpCode::Add,
            BinaryOp::Subtract => OpCode::Subtract,
            BinaryOp::Multiply => OpCode::Multiply,
            BinaryOp::Divide => OpCode::Divide,
        }
    }

    /// The opcode that encodes this operator.
    #[verifier::when_used_as_spec(spec_opcode)]
    pub fn opcode(self) -> (op: OpCode)
        ensures
            op == self.spec_opcode(),
    {
        match self {
            BinaryOp::Add => OpCode::Add,
            BinaryOp::Subtract => OpCode::Subtract,
            BinaryOp::Multiply => OpCode::Multiply,
            BinaryOp::Divide => OpCode::Divide,
        }
    }
}

/// An instruction in its structured form. A chunk stores the encoding, never
/// this value.
#[derive(Debug, Clone, Copy, PartialEq, Eq, Structural)]
pub enum Instruction {
    Return,
    Constant(Value),
    Negate,
    BinaryOp(BinaryOp),
}

impl Instruction {
    /// The opcode that starts this instruction's encoding.
    pub open spec fn spec_opcode(self) -> OpCode {
        match self {
            Instruction::Return => OpCode::Return,
            Instruction::Constant(_) => OpCode::Constant,
            Instruction::Negate => OpCode::Negate,
            Instruction::BinaryOp(op) => op.spec_opcode(),
        }
    }

    /// The opcode that starts this instruction's encoding.
    #[verifier::when_used_as_spec(spec_opcode)]
    pub fn opcode(self) -> (op: OpCode)
        ensures
            op == self.spec_opcode(),
    {
        match self {
            Instruction::Return => OpCode::Return,
            Instruction::Constant(_) => OpCode::Constant,
            Instruction::Negate => OpCode::Negate,
            Instruction::BinaryOp(op) => op.opcode(),
        }
    }

    /// The instruction as a listing shows it: its name, and in parentheses
    /// the operator of a binary operation, or `value` for the value of a
    /// constant.
    pub open spec fn listed_text(self, value: Seq<char>) -> Seq<char> {
        match self {
            Instruction::Return => "Return"@,
            Instruction::Constant(_) => "Constant("@ + value + ")"@,
            Instruction::Negate => "Negate"@,
            Instruction::BinaryOp(op) => "BinaryOp("@ + op.spec_opcode().spec_name() + ")"@,
        }
    }

    /// Writes the instruction as a listing shows it. The caller writes the
    /// value of a constant: `value` is its text.
    pub fn to_text(&self, value: &str) -> (text: String)
        ensures
            text@ == self.listed_text(value@),
    {
        match *self {
            Instruction::Return => String::from_str("Return"),
            Instruction::Constant(_) => {
                let mut text = String::from_str("Constant(");
                text.append(value);
                text.append(")");
                text
            },
            Instruction::Negate => String::from_str("Negate"),
            Instruction::BinaryOp(op) => {
                let mut text = String::from_str("BinaryOp(");
                text.append(op.opcode().name());
                text.append(")");
                text
            },
        }
    }

    /// The number of bytes that this instruction's encoding takes.
    pub open spec fn width(self) -> nat {
        1 + self.spec_opcode().operands()
    }
}

/// The most constants a chunk can hold: an operand is one byte.
pub const MAX_CONSTANTS: usize = 256;

/// What a chunk holds, as three sequences.
pub struct ChunkView {
    /// The source line of each byte of `code`.
    pub lines: Seq<u32>,
    /// The encoded instructions.
    pub code: Seq<u8>,
    /// The constant pool.
    pub constants: Seq<Value>,
}

impl ChunkView {
    /// The chunk that holds nothing.
    pub open spec fn empty() -> ChunkView {
        ChunkView { lines: Seq::empty(), code: Seq::empty(), constants: Seq::empty() }
    }

    /// Every byte has its line, and one byte can index every constant.
    pub open spec fn wf(self) -> bool {
        &&& self.code.len() == self.lines.len()
        &&& self.constants.len() <= MAX_CONSTANTS
    }

    /// Whether the instruction can be appended: a constant needs room in the
    /// pool, anything else always fits.
    pub open spec fn accepts(self, instruction: Instruction) -> bool {
        instruction is Constant ==> self.constants.len() < MAX_CONSTANTS
    }

    /// The chunk with one byte and its line appended.
    pub open spec fn with_raw(self, byte: u8, line: u32) -> ChunkView {
        ChunkView {
            lines: self.lines.push(line),
            code: self.code.push(byte),
            constants: self.constants,
        }
    }

    /// The chunk with one instruction appended: its opcode byte, for a
    /// constant the index of the value in the pool, the line once for each
    /// byte, and for a constant the value at the end of the pool.
    pub open spec fn with_instruction(self, line: u32, instruction: Instruction) -> ChunkView {
        match instruction {
            Instruction::Constant(value) => ChunkView {
                lines: self.lines.push(line).push(line),
                code: self.code.push(OpCode::Constant.byte()).push(self.constants.len() as u8),
                constants: self.constants.push(value),
            },
            _ => self.with_raw(instruction.spec_opcode().byte(), line),
        }
    }

    /// Whether all the instructions can be appended, one after another.
    pub open spec fn fits(self, items: Seq<(u32, Instruction)>) -> bool
        decreases items.len(),
    {
        items.len() == 0 || (self.accepts(items[0].1) && self.with_instruction(
            items[0].0,
            items[0].1,
        ).fits(items.drop_first()))
    }

    /// The chunk with the instructions appended one after another.
    pub open spec fn appended(self, items: Seq<(u32, Instruction)>) -> ChunkView
        decreases items.len(),
    {
        if items.len() == 0 {
            self
        } else {
            self.with_instruction(items[0].0, items[0].1).appended(items.drop_first())
        }
    }

    /// Appending an instruction that fits keeps a chunk well formed.
    pub proof fn lemma_with_instruction_wf(self, line: u32, instruction: Instruction)
        requires
            self.wf(),
            self.accepts(instruction),
        ensures
            self.with_instruction(line, instruction).wf(),
            self.with_instruction(line, instruction).code.len() == self.code.len()
                + instruction.width(),
    {
    }
}

/// How many of the instructions are constants.
pub open spec fn constants_in(items: Seq<(u32, Instruction)>) -> nat
    decreases items.len(),
{
    if items.len() == 0 {
        0
    } else if items[0].1 is Constant {
        1 + constants_in(items.drop_first())
    } else {
        constants_in(items.drop_first())
    }
}

/// Pool bound: instructions fit exactly when they hold no constant, or the
/// pool with their constants holds at most `MAX_CONSTANTS`. Where they fit,
/// the pool grows by one value for each constant.
pub proof fn lemma_pool_bound(chunk: ChunkView, items: Seq<(u32, Instruction)>)
    ensures
        chunk.fits(items) <==> constants_in(items) == 0 || chunk.constants.len() + constants_in(
            items,
        ) <= MAX_CONSTANTS,
        chunk.fits(items) ==> chunk.appended(items).constants.len() == chunk.constants.len()
            + constants_in(items),
    decreases items.len(),
{
    if items.len() != 0 {
        lemma_pool_bound(chunk.with_instruction(items[0].0, items[0].1), items.drop_first());
    }
}

/// A sequence of encoded instructions, its constant pool, and the source line
/// of every byte of the code.
#[derive(Debug, PartialEq)]
pub struct Chunk {
    pub lines: Vec<u32>,
    pub code: Vec<u8>,
    pub constants: Vec<Value>,
}

impl View for Chunk {
    type V = ChunkView;

    open spec fn view(&self) -> ChunkView {
        ChunkView { lines: self.lines@, code: self.code@, constants: self.constants@ }
    }
}

impl Chunk {
    /// An empty chunk.
    pub fn new() -> (chunk: Chunk)
        ensures
            chunk@ == ChunkView::empty(),
            chunk@.wf(),
    {
        Chunk { lines: Vec::new(), code: Vec::new(), constants: Vec::new() }
    }

    /// Whether the instruction can be appended: a constant needs room in the
    /// pool, anything else always fits.
    pub fn accepts(&self, instruction: Instruction) -> (r: bool)
        ensures
            r == self@.accepts(instruction),
    {
        match instruction {
            Instruction::Constant(_) => self.constants.len() < MAX_CONSTANTS,
            _ => true,
        }
    }

    /// Whether all the instructions can be appended, one after another.
    pub fn fits(&self, instructions: &[(u32, Instruction)]) -> (r: bool)
        ensures
            r == self@.fits(instructions@),
    {
        let mut count: usize = 0;
        let mut i: usize = 0;
        proof {
            assert(instructions@.skip(0) =~= instructions@);
        }
        while i < instructions.len()
            invariant
                i <= instructions@.len(),
                count <= i,
                constants_in(instructions@) == count + constants_in(instructions@.skip(i as int)),
            decreases instructions@.len() - i,
        {
            proof {
                let rest = instructions@.skip(i as int);
                assert(rest[0] == instructions@[i as int]);
                assert(rest.drop_first() =~= instructions@.skip(i + 1));
            }
            match instructions[i].1 {
                Instruction::Constant(_) => {
                    count += 1;
                },
                _ => {},
            }
            i += 1;
        }
        proof {
            lemma_pool_bound(self@, instructions@);
        }
        let held = self.constants.len();
        count == 0 || (held <= MAX_CONSTANTS && count <= MAX_CONSTANTS - held)
    }

    /// Appends the encoding of `instruction`, tagged with `line`.
    ///
    /// A constant needs room in the pool: where the pool holds
    /// `MAX_CONSTANTS` values no byte can index another, and `accepts` tells.
    pub fn add_instruction(&mut self, line: u32, instruction: Instruction)
        requires
            old(self)@.accepts(instruction),
        ensures
            final(self)@ == old(self)@.with_instruction(line, instruction),
            old(self)@.wf() ==> final(self)@.wf(),
    {
        match instruction {
            Instruction::Constant(value) => {
                let constant_id = self.add_constant(value);
                self.add_op(OpCode::Constant, line);
                self.add_raw(constant_id, line);
            },
            _ => {
                self.add_op(instruction.opcode(), line);
            },
        }
    }

    /// Appends the instructions in order, each with its line, as repeated
    /// calls of `add_instruction` would. They must all fit, which `fits`
    /// tells.
    pub fn add_instructions(&mut self, instructions: &[(u32, Instruction)])
        requires
            old(self)@.fits(instructions@),
        ensures
            final(self)@ == old(self)@.appended(instructions@),
            old(self)@.wf() ==> final(self)@.wf(),
    {
        let mut i: usize = 0;
        proof {
            assert(instructions@.skip(0) =~= instructions@);
        }
        while i < instructions.len()
            invariant
                i <= instructions@.len(),
                old(self)@.appended(instructions@) == self@.appended(instructions@.skip(i as int)),
                self@.fits(instructions@.skip(i as int)),
                old(self)@.wf() ==> self@.wf(),
            decreases instructions@.len() - i,
        {
            let (line, instruction) = instructions[i];
            proof {
                let rest = instructions@.skip(i as int);
                assert(rest[0] == instructions@[i as int]);
                assert(rest.drop_first() =~= instructions@.skip(i + 1));
            }
            self.add_instruction(line, instruction);
            i += 1;
        }
    }

    /// Appends an opcode byte.
    fn add_op(&mut self, op: OpCode, line: u32)
        ensures
            final(self)@ == old(self)@.with_raw(op.byte(), line),
    {
        self.add_raw(u8::from(op), line);
    }

    /// Appends one byte of code and its line.
    fn add_raw(&mut self, code: u8, line: u32)
        ensures
            final(self)@ == old(self)@.with_raw(code, line),
    {
        self.code.push(code);
        self.lines.push(line);
    }

    /// Puts a constant at the end of the pool and returns its index.
    fn add_constant(&mut self, constant: Value) -> (index: u8)
        requires
            old(self)@.constants.len() < MAX_CONSTANTS,
        ensures
            index == old(self)@.constants.len(),
            final(self)@ == (ChunkView {
                constants: old(self)@.constants.push(constant),
                ..old(self)@
            }),
    {
        let index = self.constants.len();
        self.constants.push(constant);
        index as u8
    }
}

} // verus!
