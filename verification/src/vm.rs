//! The stack machine.
//!
//! The machine decodes a chunk and keeps the operand stack. It does no
//! arithmetic of its own: `interpret_chunk` takes the two operations from
//! its caller and runs a chunk to its end. `advance` runs up to the next
//! instruction that needs arithmetic: it pops the operands, says what is to
//! be computed, and the caller hands the result back with `push`.

use crate::bytecode::chunk::{BinaryOp, Chunk, ChunkView, Instruction};
use crate::bytecode::parser::{exhausted, next_pos, parsed_at, BytecodeParseError, BytecodeParser};
use crate::value::Value;
use vstd::prelude::*;
use vstd::std_specs::convert::FromSpecImpl;

verus! {

/// Why a run ended without a result.
#[derive(Debug, Clone, Copy, PartialEq, Eq, Structural)]
pub enum InterpreterError {
    /// The chunk holds bytes that decode to no instruction.
    ParseError(BytecodeParseError),
    /// An instruction needed more operands than the stack held.
    EmptyStack,
}

impl From<BytecodeParseError> for InterpreterError {
    fn from(e: BytecodeParseError) -> (r: InterpreterError) {
        InterpreterError::ParseError(e)
    }
}

impl FromSpecImpl<BytecodeParseError> for InterpreterError {
    open spec fn obeys_from_spec() -> bool {
        true
    }

    open spec fn from_spec(e: BytecodeParseError) -> InterpreterError {
        InterpreterError::ParseError(e)
    }
}

/// What the machine asks of its caller after an instruction.
#[derive(Debug, Clone, Copy, PartialEq, Eq, Structural)]
pub enum Action {
    /// Negate the value and `push` the result.
    Negate(Value),
    /// Apply the operator to the left and the right operand, in this order,
    /// and `push` the result.
    Apply(BinaryOp, Value, Value),
    /// Report the value as the program's result, and stop.
    Return(Value),
}

/// What an instruction asks of the caller, on a given stack (`None`:
/// nothing, the run goes on), or the error that it ends the run with.
pub open spec fn action_of(stack: Seq<Value>, instruction: Instruction) -> Result<
    Option<Action>,
    InterpreterError,
> {
    match instruction {
        Instruction::Return => if stack.len() >= 1 {
            Ok(Some(Action::Return(stack.last())))
        } else {
            Err(InterpreterError::EmptyStack)
        },
        Instruction::Constant(_) => Ok(None),
        Instruction::Negate => if stack.len() >= 1 {
            Ok(Some(Action::Negate(stack.last())))
        } else {
            Err(InterpreterError::EmptyStack)
        },
        Instruction::BinaryOp(op) => if stack.len() >= 2 {
            Ok(Some(Action::Apply(op, stack[stack.len() - 2], stack[stack.len() - 1])))
        } else {
            Err(InterpreterError::EmptyStack)
        },
    }
}

/// The stack that an instruction leaves: a constant is pushed, every other
/// instruction pops its operands, as many of them as there are.
pub open spec fn stack_after(stack: Seq<Value>, instruction: Instruction) -> Seq<Value> {
    match instruction {
        Instruction::Constant(value) => stack.push(value),
        Instruction::Return | Instruction::Negate => if stack.len() >= 1 {
            stack.drop_last()
        } else {
            stack
        },
        Instruction::BinaryOp(_) => if stack.len() >= 2 {
            stack.drop_last().drop_last()
        } else {
            Seq::empty()
        },
    }
}

/// Where a machine stands when it next needs its caller.
pub struct Pause {
    /// The cursor.
    pub pos: int,
    /// The operand stack.
    pub stack: Seq<Value>,
    /// What the caller has to do (`None`: the chunk is exhausted, the run is
    /// over), or the error that ended the run.
    pub result: Result<Option<Action>, InterpreterError>,
}

/// Runs the chunk from `pos` on `stack` up to the first instruction that
/// needs the caller, the first error, or the end of the chunk.
pub open spec fn run_from(chunk: ChunkView, pos: int, stack: Seq<Value>) -> Pause
    decreases chunk.code.len() + 1 - pos,
{
    if pos < 0 || exhausted(chunk, pos) {
        Pause { pos, stack, result: Ok(None) }
    } else {
        match parsed_at(chunk, pos) {
            Err(e) => Pause {
                pos: next_pos(chunk, pos),
                stack,
                result: Err(InterpreterError::ParseError(e)),
            },
            Ok(instruction) => match action_of(stack, instruction) {
                Ok(None) => run_from(
                    chunk,
                    next_pos(chunk, pos),
                    stack_after(stack, instruction),
                ),
                Ok(Some(action)) => Pause {
                    pos: next_pos(chunk, pos),
                    stack: stack_after(stack, instruction),
                    result: Ok(Some(action)),
                },
                Err(e) => Pause {
                    pos: next_pos(chunk, pos),
                    stack: stack_after(stack, instruction),
                    result: Err(e),
                },
            },
        }
    }
}

/// A run pauses behind the instruction that it pauses at: the cursor has
/// moved on wherever the run did not find the chunk exhausted, and it
/// stands at most one byte behind the code.
pub proof fn lemma_run_moves_on(chunk: ChunkView, pos: int, stack: Seq<Value>)
    requires
        0 <= pos,
    ensures
        pos <= run_from(chunk, pos, stack).pos,
        pos <= chunk.code.len() + 1 ==> run_from(chunk, pos, stack).pos <= chunk.code.len() + 1,
        run_from(chunk, pos, stack).result != Ok::<Option<Action>, InterpreterError>(None) ==> pos
            < run_from(chunk, pos, stack).pos,
    decreases chunk.code.len() + 1 - pos,
{
    if !exhausted(chunk, pos) {
        if let Ok(instruction) = parsed_at(chunk, pos) {
            if action_of(stack, instruction) == Ok::<Option<Action>, InterpreterError>(None) {
                lemma_run_moves_on(chunk, next_pos(chunk, pos), stack_after(stack, instruction));
            }
        }
    }
}

/// Whether a whole run of the chunk, from `pos` on `stack`, can end with
/// `end`, where `negate` and `apply` do the arithmetic: with the value that
/// `Return` pops, with `None` where the chunk is exhausted, or with the
/// first error. Each result of the arithmetic is pushed, and the run goes
/// on behind the instruction that asked for it. That the cursor has moved
/// on by then, and stands at most one byte behind the code, always holds
/// (`lemma_run_moves_on`): it is said here to show that the run ends.
pub open spec fn ends_with<N: Fn(Value) -> Value, A: Fn(BinaryOp, Value, Value) -> Value>(
    chunk: ChunkView,
    pos: int,
    stack: Seq<Value>,
    negate: N,
    apply: A,
    end: Result<Option<Value>, InterpreterError>,
) -> bool
    decreases chunk.code.len() + 1 - pos,
{
    let pause = run_from(chunk, pos, stack);
    match pause.result {
        Err(e) => end == Err::<Option<Value>, InterpreterError>(e),
        Ok(None) => end == Ok::<Option<Value>, InterpreterError>(None),
        Ok(Some(Action::Return(value))) => end == Ok::<Option<Value>, InterpreterError>(
            Some(value),
        ),
        Ok(Some(Action::Negate(operand))) => exists|result: Value|
            call_ensures(negate, (operand,), result) && pos < pause.pos <= chunk.code.len() + 1
                && ends_with(chunk, pause.pos, pause.stack.push(result), negate, apply, end),
        Ok(Some(Action::Apply(op, left, right))) => exists|result: Value|
            call_ensures(apply, (op, left, right), result) && pos < pause.pos
                <= chunk.code.len() + 1 && ends_with(
                chunk,
                pause.pos,
                pause.stack.push(result),
                negate,
                apply,
                end,
            ),
    }
}

/// The machine: an operand stack.
pub struct VM {
    pub stack: Vec<Value>,
}

impl VM {
    /// A machine with an empty stack.
    pub fn new() -> (vm: VM)
        ensures
            vm.stack@ == Seq::<Value>::empty(),
    {
        VM { stack: Vec::new() }
    }

    /// Takes the top of the stack.
    fn stack_pop(&mut self) -> (r: Result<Value, InterpreterError>)
        ensures
            old(self).stack@.len() >= 1 ==> r == Ok::<Value, InterpreterError>(
                old(self).stack@.last(),
            ) && final(self).stack@ == old(self).stack@.drop_last(),
            old(self).stack@.len() == 0 ==> r == Err::<Value, InterpreterError>(
                InterpreterError::EmptyStack,
            ) && final(self).stack@ == old(self).stack@,
    {
        match self.stack.pop() {
            Some(value) => Ok(value),
            None => Err(InterpreterError::EmptyStack),
        }
    }

    /// Hands the machine the result of the arithmetic that it asked for.
    pub fn push(&mut self, value: Value)
        ensures
            final(self).stack@ == old(self).stack@.push(value),
    {
        self.stack.push(value);
    }

    /// Executes one instruction on the stack, up to the arithmetic.
    ///
    /// A constant is pushed. `Negate` pops its operand and a binary operator
    /// its two: the value pushed earlier is the left operand. `Return` pops
    /// the result. An instruction that finds too few operands fails with
    /// `EmptyStack`.
    pub fn interpret(&mut self, instruction: Instruction) -> (r: Result<
        Option<Action>,
        InterpreterError,
    >)
        ensures
            r == action_of(old(self).stack@, instruction),
            final(self).stack@ == stack_after(old(self).stack@, instruction),
    {
        match instruction {
            Instruction::Return => {
                match self.stack_pop() {
                    Ok(value) => Ok(Some(Action::Return(value))),
                    Err(e) => Err(e),
                }
            },
            Instruction::Constant(value) => {
                self.stack.push(value);
                Ok(None)
            },
            Instruction::Negate => {
                match self.stack_pop() {
                    Ok(value) => Ok(Some(Action::Negate(value))),
                    Err(e) => Err(e),
                }
            },
            Instruction::BinaryOp(op) => {
                let right = self.stack_pop();
                let left = self.stack_pop();
                match (left, right) {
                    (Ok(a), Ok(b)) => Ok(Some(Action::Apply(op, a, b))),
                    _ => Err(InterpreterError::EmptyStack),
                }
            },
        }
    }

    /// Runs the chunk from its start on an empty stack, with `negate` and
    /// `apply` for the arithmetic.
    ///
    /// Returns the value that `Return` pops, for the caller to report;
    /// `None` where the chunk ends without `Return`; and the error where a
    /// step does not decode or an instruction finds too few operands.
    /// Nothing is executed after `Return` or after an error.
    pub fn interpret_chunk<N, A>(chunk: Chunk, negate: N, apply: A) -> (end: Result<
        Option<Value>,
        InterpreterError,
    >) where N: Fn(Value) -> Value, A: Fn(BinaryOp, Value, Value) -> Value
        requires
            chunk@.code.len() < usize::MAX,
            forall|operand: Value| call_requires(negate, (operand,)),
            forall|op: BinaryOp, left: Value, right: Value|
                call_requires(apply, (op, left, right)),
        ensures
            ends_with(chunk@, 0, Seq::empty(), negate, apply, end),
    {
        let mut vm = VM::new();
        let mut parser = chunk.iter();
        loop
            invariant
                parser.chunk == &chunk,
                chunk@.code.len() < usize::MAX,
                parser.pos <= chunk@.code.len() + 1,
                forall|operand: Value| call_requires(negate, (operand,)),
                forall|op: BinaryOp, left: Value, right: Value|
                    call_requires(apply, (op, left, right)),
                forall|end: Result<Option<Value>, InterpreterError>|
                    ends_with(chunk@, parser.pos as int, vm.stack@, negate, apply, end)
                        ==> ends_with(chunk@, 0, Seq::empty(), negate, apply, end),
            decreases chunk@.code.len() + 1 - parser.pos,
        {
            let ghost pos = parser.pos as int;
            let ghost stack = vm.stack@;
            proof {
                lemma_run_moves_on(chunk@, pos, stack);
            }
            match vm.advance(&mut parser) {
                Err(e) => {
                    return Err(e);
                },
                Ok(None) => {
                    return Ok(None);
                },
                Ok(Some(Action::Return(value))) => {
                    return Ok(Some(value));
                },
                Ok(Some(Action::Negate(operand))) => {
                    let result = negate(operand);
                    vm.push(result);
                },
                Ok(Some(Action::Apply(op, left, right))) => {
                    let result = apply(op, left, right);
                    vm.push(result);
                },
            }
        }
    }

    /// Decodes and executes the chunk from the cursor on, up to the first
    /// instruction that needs arithmetic or ends the run.
    ///
    /// Returns `Ok(Some(action))` with the arithmetic to do, or the value to
    /// report; `Ok(None)` when the chunk is exhausted; the error when a step
    /// does not decode or an instruction finds too few operands. After
    /// arithmetic the caller pushes the result and calls again; after
    /// `Return`, or an error, the run is over.
    pub fn advance(&mut self, parser: &mut BytecodeParser<'_>) -> (r: Result<
        Option<Action>,
        InterpreterError,
    >)
        requires
            old(parser).chunk@.code.len() < usize::MAX,
        ensures
            final(parser).chunk == old(parser).chunk,
            r == run_from(old(parser).chunk@, old(parser).pos as int, old(self).stack@).result,
            final(self).stack@ == run_from(
                old(parser).chunk@,
                old(parser).pos as int,
                old(self).stack@,
            ).stack,
            final(parser).pos == run_from(
                old(parser).chunk@,
                old(parser).pos as int,
                old(self).stack@,
            ).pos,
    {
        loop
            invariant
                parser.chunk == old(parser).chunk,
                parser.chunk@.code.len() < usize::MAX,
                run_from(parser.chunk@, parser.pos as int, self.stack@) == run_from(
                    old(parser).chunk@,
                    old(parser).pos as int,
                    old(self).stack@,
                ),
            decreases parser.chunk@.code.len() + 1 - parser.pos,
        {
            match parser.next() {
                None => {
                    return Ok(None);
                },
                Some((_, Err(e))) => {
                    return Err(InterpreterError::from(e));
                },
                Some((_, Ok(instruction))) => {
                    match self.interpret(instruction) {
                        Ok(None) => {},
                        Ok(Some(action)) => {
                            return Ok(Some(action));
                        },
                        Err(e) => {
                            return Err(e);
                        },
                    }
                },
            }
        }
    }
}

/// Operand order: of the two values that a binary operator pops, the one
/// pushed earlier is the left operand and the one pushed later the right.
pub proof fn lemma_operand_order(stack: Seq<Value>, left: Value, right: Value, op: BinaryOp)
    ensures
        action_of(stack.push(left).push(right), Instruction::BinaryOp(op)) == Ok::<
            Option<Action>,
            InterpreterError,
        >(Some(Action::Apply(op, left, right))),
        stack_after(stack.push(left).push(right), Instruction::BinaryOp(op)) == stack,
{
    assert(stack.push(left).push(right).drop_last().drop_last() =~= stack);
}

/// A run of a chunk that starts with `Return` fails on the empty stack, and
/// no value is reported, whatever the arithmetic.
pub proof fn lemma_return_on_empty_stack<N: Fn(Value) -> Value, A: Fn(BinaryOp, Value, Value) -> Value>(
    chunk: ChunkView,
    negate: N,
    apply: A,
    end: Result<Option<Value>, InterpreterError>,
)
    requires
        chunk.code.len() >= 1,
        chunk.lines.len() >= 1,
        parsed_at(chunk, 0) == Ok::<Instruction, BytecodeParseError>(Instruction::Return),
    ensures
        run_from(chunk, 0, Seq::empty()).result == Err::<Option<Action>, InterpreterError>(
            InterpreterError::EmptyStack,
        ),
        ends_with(chunk, 0, Seq::empty(), negate, apply, end) <==> end == Err::<
            Option<Value>,
            InterpreterError,
        >(InterpreterError::EmptyStack),
{
}

} // verus!
