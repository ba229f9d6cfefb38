use rlox::bytecode::chunk::{BinaryOp, Chunk, Instruction, OpCode};
use rlox::value::Value;

fn value(x: f64) -> Value {
    Value(x.to_bits())
}

#[test]
fn add_return() {
    let mut chunk = Chunk::new();
    chunk.add_instruction(1, Instruction::Return);

    let expected = Chunk {
        code: vec![OpCode::Return.into()],
        constants: vec![],
        lines: vec![1],
    };
    assert_eq!(chunk, expected);
}

#[test]
fn add_constant() {
    let mut chunk = Chunk::new();
    chunk
        .add_instructions(&[
            (1, Instruction::Constant(value(3.0))),
            (2, Instruction::Constant(value(1.0))),
        ]);

    let expected = Chunk {
        code: vec![
            OpCode::Constant.into(),
            0, // constant index
            OpCode::Constant.into(),
            1,
        ],
        constants: vec![value(3.0), value(1.0)],
        lines: vec![1, 1, 2, 2],
    };
    assert_eq!(chunk, expected);
}

#[test]
fn new_chunk_is_empty() {
    let chunk = Chunk::new();
    assert!(chunk.code.is_empty());
    assert!(chunk.lines.is_empty());
    assert!(chunk.constants.is_empty());
}

#[test]
fn opcode_bytes_are_stable() {
    assert_eq!(u8::from(OpCode::Return), 1);
    assert_eq!(u8::from(OpCode::Constant), 2);
    assert_eq!(u8::from(OpCode::Negate), 3);
    assert_eq!(u8::from(OpCode::Add), 4);
    assert_eq!(u8::from(OpCode::Subtract), 5);
    assert_eq!(u8::from(OpCode::Multiply), 6);
    assert_eq!(u8::from(OpCode::Divide), 7);
}

#[test]
fn opcode_from_byte() {
    assert_eq!(OpCode::try_from(1), Ok(OpCode::Return));
    assert_eq!(OpCode::try_from(2), Ok(OpCode::Constant));
    assert_eq!(OpCode::try_from(3), Ok(OpCode::Negate));
    assert_eq!(OpCode::try_from(4), Ok(OpCode::Add));
    assert_eq!(OpCode::try_from(5), Ok(OpCode::Subtract));
    assert_eq!(OpCode::try_from(6), Ok(OpCode::Multiply));
    assert_eq!(OpCode::try_from(7), Ok(OpCode::Divide));
    assert_eq!(OpCode::try_from(0), Err(()));
    assert_eq!(OpCode::try_from(8), Err(()));
    assert_eq!(OpCode::try_from(255), Err(()));
}

#[test]
fn opcode_of_instruction() {
    assert_eq!(Instruction::Return.opcode(), OpCode::Return);
    assert_eq!(Instruction::Constant(value(1.0)).opcode(), OpCode::Constant);
    assert_eq!(Instruction::Negate.opcode(), OpCode::Negate);
    assert_eq!(Instruction::BinaryOp(BinaryOp::Add).opcode(), OpCode::Add);
    assert_eq!(BinaryOp::Subtract.opcode(), OpCode::Subtract);
    assert_eq!(BinaryOp::Multiply.opcode(), OpCode::Multiply);
    assert_eq!(BinaryOp::Divide.opcode(), OpCode::Divide);
}

#[test]
fn every_instruction_is_encoded() {
    let mut chunk = Chunk::new();
    chunk
        .add_instructions(&[
            (7, Instruction::Constant(value(1.5))),
            (7, Instruction::Negate),
            (8, Instruction::BinaryOp(BinaryOp::Add)),
            (8, Instruction::BinaryOp(BinaryOp::Subtract)),
            (9, Instruction::BinaryOp(BinaryOp::Multiply)),
            (9, Instruction::BinaryOp(BinaryOp::Divide)),
            (10, Instruction::Return),
        ]);
    assert_eq!(chunk.code, vec![2, 0, 3, 4, 5, 6, 7, 1]);
    assert_eq!(chunk.lines, vec![7, 7, 7, 8, 8, 9, 9, 10]);
    assert_eq!(chunk.constants, vec![value(1.5)]);
}

#[test]
fn lines_stay_aligned_with_code() {
    let mut chunk = Chunk::new();
    for i in 0..40u32 {
        chunk
            .add_instruction(i, Instruction::Constant(value(i as f64)));
        chunk.add_instruction(i + 100, Instruction::Negate);
        assert_eq!(chunk.code.len(), chunk.lines.len());
    }
    let mut pos = 0;
    while pos < chunk.code.len() {
        if chunk.code[pos] == 2 {
            assert_eq!(chunk.lines[pos], chunk.lines[pos + 1]);
            pos += 2;
        } else {
            pos += 1;
        }
    }
}

#[test]
fn pool_takes_256_constants_and_no_more() {
    let mut chunk = Chunk::new();
    for i in 0..256u32 {
        let constant = Instruction::Constant(value(i as f64));
        assert!(chunk.accepts(constant));
        chunk.add_instruction(i, constant);
    }
    assert_eq!(chunk.constants.len(), 256);
    assert_eq!(chunk.code.len(), 512);
    assert_eq!(chunk.code[0], 2);
    assert_eq!(chunk.code[1], 0);
    assert_eq!(chunk.code[510], 2);
    assert_eq!(chunk.code[511], 255);
    assert_eq!(chunk.constants[255], value(255.0));

    // the pool is full: another constant is not accepted
    assert!(!chunk.accepts(Instruction::Constant(value(256.0))));
    assert!(!chunk.accepts(Instruction::Constant(value(0.0))));

    // anything but a constant still fits
    assert!(chunk.accepts(Instruction::Return));
    assert!(chunk.accepts(Instruction::Negate));
    assert!(chunk.accepts(Instruction::BinaryOp(BinaryOp::Add)));
    chunk.add_instruction(301, Instruction::Return);
    assert_eq!(chunk.code.len(), 513);
    assert_eq!(chunk.lines.len(), 513);
    assert_eq!(chunk.constants.len(), 256);
}

#[test]
fn fits_counts_the_constants() {
    let mut chunk = Chunk::new();
    assert!(chunk.fits(&[]));
    let many: Vec<(u32, Instruction)> = (0..256u32)
        .map(|i| (i, Instruction::Constant(value(1.0))))
        .collect();
    assert!(chunk.fits(&many));
    let mut too_many = many.clone();
    too_many.push((7, Instruction::Return));
    assert!(chunk.fits(&too_many));
    too_many.push((8, Instruction::Constant(value(2.0))));
    assert!(!chunk.fits(&too_many));

    for i in 0..255u32 {
        chunk.add_instruction(i, Instruction::Constant(value(0.0)));
    }
    assert!(chunk.fits(&[
        (1, Instruction::Negate),
        (2, Instruction::Constant(value(1.0))),
        (3, Instruction::Return),
    ]));
    assert!(!chunk.fits(&[
        (1, Instruction::Negate),
        (2, Instruction::Constant(value(1.0))),
        (3, Instruction::Return),
        (4, Instruction::Constant(value(2.0))),
    ]));
    chunk.add_instructions(&[
        (1, Instruction::Negate),
        (2, Instruction::Constant(value(1.0))),
        (3, Instruction::Return),
    ]);
    assert_eq!(chunk.constants.len(), 256);
    assert_eq!(&chunk.code[510..], &[3, 2, 255, 1]);
    assert_eq!(&chunk.lines[510..], &[1, 2, 2, 3]);
    assert!(chunk.fits(&[(1, Instruction::Negate), (1, Instruction::Return)]));
    assert!(!chunk.fits(&[(1, Instruction::Constant(value(1.0)))]));
}

#[test]
fn add_instructions_is_repeated_add_instruction() {
    let items = [
        (1, Instruction::Constant(value(3.0))),
        (1, Instruction::Negate),
        (2, Instruction::Return),
    ];
    let mut all_at_once = Chunk::new();
    all_at_once.add_instructions(&items);
    let mut one_by_one = Chunk::new();
    for (line, instruction) in items {
        one_by_one.add_instruction(line, instruction);
    }
    assert_eq!(all_at_once, one_by_one);
}
