use rlox::bytecode::chunk::{BinaryOp, Chunk, Instruction, OpCode};
use rlox::bytecode::parser::{BytecodeParseError, InstructionMetadata};
use rlox::value::Value;

fn value(x: f64) -> Value {
    Value(x.to_bits())
}

#[test]
fn normal() {
    let mut chunk = Chunk::new();

    let instructions = vec![
        (1, Instruction::Constant(value(3.0))),
        (2, Instruction::Return),
        (3, Instruction::Constant(value(2.0))),
        (3, Instruction::Return),
    ];
    chunk.add_instructions(&instructions);

    let parsed: Vec<_> = chunk
        .decode()
        .into_iter()
        .map(|(metadata, parsed)| {
            (
                metadata.line,
                parsed.expect("unable to parse test instruction stream"),
            )
        })
        .collect();

    assert_eq!(instructions, parsed);
}

#[test]
fn missing_constant() {
    let chunk = Chunk {
        code: vec![
            OpCode::Return.into(),
            OpCode::Constant.into(),
            0,
            OpCode::Return.into(),
        ],
        lines: vec![1, 2, 2, 3, 3],
        constants: vec![],
    };

    let result: Vec<_> = chunk.decode().into_iter().map(|(_, parsed)| parsed).collect();

    assert_eq!(
        result,
        vec![
            Ok(Instruction::Return),
            Err(BytecodeParseError::InvalidConstantIndex(0)),
            Ok(Instruction::Return),
        ],
    )
}

#[test]
fn early_eof() {
    let chunk = Chunk {
        code: vec![
            OpCode::Return.into(),
            OpCode::Constant.into(),
            // no constant index
        ],
        lines: vec![1, 1, 1],
        constants: vec![],
    };

    let result: Vec<_> = chunk.decode().into_iter().map(|(_, parsed)| parsed).collect();

    assert_eq!(
        result,
        vec![
            Ok(Instruction::Return),
            Err(BytecodeParseError::UnexpectedEndOfBytecode(
                OpCode::Constant
            )),
        ]
    )
}

#[test]
fn metadata_new_keeps_its_arguments() {
    let metadata = InstructionMetadata::new(12, 34);
    assert_eq!(metadata.pos, 12);
    assert_eq!(metadata.line, 34);
}

#[test]
fn round_trip_of_every_instruction() {
    let instructions = vec![
        (1, Instruction::Constant(value(1.2))),
        (1, Instruction::Constant(value(3.4))),
        (2, Instruction::BinaryOp(BinaryOp::Add)),
        (3, Instruction::BinaryOp(BinaryOp::Subtract)),
        (4, Instruction::BinaryOp(BinaryOp::Multiply)),
        (5, Instruction::BinaryOp(BinaryOp::Divide)),
        (6, Instruction::Negate),
        (7, Instruction::Return),
    ];
    let mut chunk = Chunk::new();
    chunk.add_instructions(&instructions);

    let steps = chunk.decode();
    assert_eq!(steps.len(), instructions.len());
    let positions: Vec<usize> = steps.iter().map(|(metadata, _)| metadata.pos).collect();
    assert_eq!(positions, vec![0, 2, 4, 5, 6, 7, 8, 9]);
    let parsed: Vec<_> = steps
        .into_iter()
        .map(|(metadata, parsed)| (metadata.line, parsed.unwrap()))
        .collect();
    assert_eq!(parsed, instructions);
}

#[test]
fn round_trip_of_a_full_pool() {
    let instructions: Vec<(u32, Instruction)> = (0..256u32)
        .map(|i| (i, Instruction::Constant(value(i as f64 * 0.5))))
        .collect();
    let mut chunk = Chunk::new();
    chunk.add_instructions(&instructions);
    let parsed: Vec<_> = chunk
        .decode()
        .into_iter()
        .map(|(metadata, parsed)| (metadata.line, parsed.unwrap()))
        .collect();
    assert_eq!(parsed, instructions);
}

#[test]
fn cursor_steps_one_instruction_at_a_time() {
    let mut chunk = Chunk::new();
    chunk
        .add_instructions(&[
            (4, Instruction::Constant(value(9.0))),
            (5, Instruction::Return),
        ]);
    let mut parser = chunk.iter();
    assert_eq!(parser.pos, 0);
    assert_eq!(
        parser.next(),
        Some((
            InstructionMetadata { line: 4, pos: 0 },
            Ok(Instruction::Constant(value(9.0)))
        ))
    );
    assert_eq!(parser.pos, 2);
    assert_eq!(
        parser.next(),
        Some((InstructionMetadata { line: 5, pos: 2 }, Ok(Instruction::Return)))
    );
    assert_eq!(parser.pos, 3);
    assert_eq!(parser.next(), None);
    assert_eq!(parser.next(), None);
    assert_eq!(parser.pos, 3);
}

#[test]
fn empty_chunk_decodes_to_nothing() {
    let chunk = Chunk::new();
    assert_eq!(chunk.decode(), vec![]);
    assert_eq!(chunk.iter().next(), None);
}

#[test]
fn unknown_instruction_is_skipped() {
    let chunk = Chunk {
        code: vec![0, 1, 8, 200, 3],
        lines: vec![1, 1, 2, 2, 3],
        constants: vec![],
    };
    let result: Vec<_> = chunk.decode().into_iter().map(|(_, parsed)| parsed).collect();
    assert_eq!(
        result,
        vec![
            Err(BytecodeParseError::UnknownInstruction(0)),
            Ok(Instruction::Return),
            Err(BytecodeParseError::UnknownInstruction(8)),
            Err(BytecodeParseError::UnknownInstruction(200)),
            Ok(Instruction::Negate),
        ]
    );
}

#[test]
fn invalid_index_names_the_index_and_decoding_goes_on() {
    let chunk = Chunk {
        code: vec![2, 5, 2, 0, 1],
        lines: vec![1, 1, 2, 2, 3],
        constants: vec![value(7.0)],
    };
    let steps = chunk.decode();
    assert_eq!(
        steps,
        vec![
            (
                InstructionMetadata { line: 1, pos: 0 },
                Err(BytecodeParseError::InvalidConstantIndex(5))
            ),
            (
                InstructionMetadata { line: 2, pos: 2 },
                Ok(Instruction::Constant(value(7.0)))
            ),
            (InstructionMetadata { line: 3, pos: 4 }, Ok(Instruction::Return)),
        ]
    );
}

#[test]
fn decoding_twice_gives_the_same() {
    let chunk = Chunk {
        code: vec![2, 0, 9, 2],
        lines: vec![1, 1, 1, 2],
        constants: vec![value(1.0)],
    };
    assert_eq!(chunk.decode(), chunk.decode());
    assert_eq!(chunk.decode().len(), 3);
}

#[test]
fn decoding_ends_where_the_lines_end() {
    let chunk = Chunk {
        code: vec![1, 3, 1],
        lines: vec![1, 2],
        constants: vec![],
    };
    let result: Vec<_> = chunk.decode().into_iter().map(|(_, parsed)| parsed).collect();
    assert_eq!(result, vec![Ok(Instruction::Return), Ok(Instruction::Negate)]);
}

#[test]
fn cursor_passes_a_missing_operand() {
    let chunk = Chunk {
        code: vec![1, 2],
        lines: vec![1, 1],
        constants: vec![],
    };
    let mut parser = chunk.iter();
    assert_eq!(
        parser.next(),
        Some((InstructionMetadata { line: 1, pos: 0 }, Ok(Instruction::Return)))
    );
    assert_eq!(parser.pos, 1);
    assert_eq!(
        parser.next(),
        Some((
            InstructionMetadata { line: 1, pos: 1 },
            Err(BytecodeParseError::UnexpectedEndOfBytecode(OpCode::Constant))
        ))
    );
    assert_eq!(parser.pos, 3);
    assert_eq!(parser.next(), None);
    assert_eq!(parser.pos, 3);
}

#[test]
fn cursor_moves_by_two_for_a_constant_and_by_one_otherwise() {
    let chunk = Chunk {
        code: vec![2, 0, 2, 9, 3, 200, 1],
        lines: vec![1, 1, 1, 1, 1, 1, 1],
        constants: vec![value(1.0)],
    };
    let mut parser = chunk.iter();
    let mut positions = vec![];
    while parser.next().is_some() {
        positions.push(parser.pos);
    }
    assert_eq!(positions, vec![2, 4, 5, 6, 7]);
}

#[test]
fn read_constant_moves_the_cursor_by_one() {
    let chunk = Chunk {
        code: vec![0, 1, 7],
        lines: vec![1, 1, 1],
        constants: vec![value(4.0), value(5.0)],
    };
    let mut parser = chunk.iter();
    assert_eq!(
        parser.read_constant(),
        Ok(Instruction::Constant(value(4.0)))
    );
    assert_eq!(parser.pos, 1);
    assert_eq!(
        parser.read_constant(),
        Ok(Instruction::Constant(value(5.0)))
    );
    assert_eq!(parser.pos, 2);
    assert_eq!(
        parser.read_constant(),
        Err(BytecodeParseError::InvalidConstantIndex(7))
    );
    assert_eq!(parser.pos, 3);
    assert_eq!(
        parser.read_constant(),
        Err(BytecodeParseError::UnexpectedEndOfBytecode(OpCode::Constant))
    );
    assert_eq!(parser.pos, 4);
}
