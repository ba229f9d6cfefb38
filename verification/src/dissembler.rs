//! The disassembler: a listing of a chunk, one entry for each decode step.

use crate::bytecode::chunk::{Chunk, Instruction};
use crate::bytecode::parser::{decode_from, BytecodeParseError, Decoded, InstructionMetadata};
use crate::text::{decimal, padded, padded_text};
use vstd::prelude::*;
use vstd::string::StringExecFns;

verus! {

/// One entry of a listing.
#[derive(Debug, Clone, Copy, PartialEq, Eq)]
pub struct Listed {
    /// The offset of the opcode byte.
    pub pos: usize,
    /// The source line, or `None` where it is that of the entry before and
    /// a placeholder is printed in its place.
    pub line: Option<u32>,
    /// The instruction, or why there is none.
    pub parsed: Result<Instruction, BytecodeParseError>,
}

impl Listed {
    /// The two columns that start the entry's line of text, each with a
    /// space behind it: the offset, with zeros before it up to four digits;
    /// then the source line, with spaces before it up to four characters, or
    /// a bar where the line is left out.
    pub open spec fn prefix_text(self) -> Seq<char> {
        padded(decimal(self.pos as nat), 4, '0') + " "@ + match self.line {
            Some(line) => padded(decimal(line as nat), 4, ' '),
            None => "   |"@,
        } + " "@
    }

    /// The two columns that start the entry's line of text.
    pub fn prefix(&self) -> (text: String)
        ensures
            text@ == self.prefix_text(),
    {
        proof {
            reveal_strlit("0");
            reveal_strlit(" ");
        }
        let mut text = padded_text(self.pos as u64, 4, "0");
        text.append(" ");
        match self.line {
            Some(line) => {
                text.append(padded_text(line as u64, 4, " ").as_str());
            },
            None => {
                text.append("   |");
            },
        }
        text.append(" ");
        text
    }

    /// The entry's line of text: the two columns, then the instruction, or
    /// the message of the error.
    pub open spec fn text(self, value: Seq<char>) -> Seq<char> {
        self.prefix_text() + match self.parsed {
            Ok(instruction) => instruction.listed_text(value),
            Err(e) => e.message_text(),
        }
    }

    /// Writes the entry's line of text. The caller writes the value of a
    /// constant: `value` is its text.
    pub fn to_text(&self, value: &str) -> (text: String)
        ensures
            text@ == self.text(value@),
    {
        let mut text = self.prefix();
        match self.parsed {
            Ok(instruction) => {
                text.append(instruction.to_text(value).as_str());
            },
            Err(e) => {
                text.append(e.message().as_str());
            },
        }
        text
    }
}

/// The entry for a decode step, after an entry for the line `prev`.
pub open spec fn listed(prev: Option<u32>, step: Decoded) -> Listed {
    Listed {
        pos: step.0.pos,
        line: if prev == Some(step.0.line) {
            None
        } else {
            Some(step.0.line)
        },
        parsed: step.1,
    }
}

/// The line of the entry before entry `i` of a listing of `steps`.
pub open spec fn line_before(steps: Seq<Decoded>, i: int) -> Option<u32> {
    if i <= 0 {
        None
    } else {
        Some(steps[i - 1].0.line)
    }
}

/// The listing of a sequence of decode steps: each entry shows its line
/// unless the entry before it has the same.
pub open spec fn listing(steps: Seq<Decoded>) -> Seq<Listed> {
    Seq::new(steps.len(), |i: int| listed(line_before(steps, i), steps[i]))
}

/// Makes the entries of a listing, one after another, and remembers the line
/// of the last.
#[derive(Debug, Clone, Copy)]
pub struct DissemblerPrinter {
    prev_line: Option<u32>,
}

impl DissemblerPrinter {
    /// The line of the last entry made, if any was.
    pub closed spec fn last_line(&self) -> Option<u32> {
        self.prev_line
    }

    pub fn new() -> (printer: DissemblerPrinter)
        ensures
            printer.last_line() is None,
    {
        DissemblerPrinter { prev_line: None }
    }

    /// The listing of the whole chunk.
    pub fn dissemble(chunk: &Chunk) -> (entries: Vec<Listed>)
        requires
            chunk@.code.len() < usize::MAX,
        ensures
            entries@ == listing(decode_from(chunk@, 0)),
    {
        let steps = chunk.decode();
        let mut dissembler = DissemblerPrinter::new();
        let mut entries: Vec<Listed> = Vec::new();
        let mut i: usize = 0;
        while i < steps.len()
            invariant
                i <= steps@.len(),
                steps@ == decode_from(chunk@, 0),
                dissembler.last_line() == line_before(steps@, i as int),
                entries@.len() == i,
                forall|j: int|
                    0 <= j < i ==> #[trigger] entries@[j] == listed(
                        line_before(steps@, j),
                        steps@[j],
                    ),
            decreases steps@.len() - i,
        {
            let (metadata, parsed) = steps[i];
            let entry = dissembler.print(metadata, parsed);
            entries.push(entry);
            i += 1;
        }
        proof {
            assert(entries@ =~= listing(steps@));
        }
        entries
    }

    /// The entry for one decode step. Its line is left out where the entry
    /// made before has the same.
    pub fn print(
        &mut self,
        metadata: InstructionMetadata,
        parsed: Result<Instruction, BytecodeParseError>,
    ) -> (entry: Listed)
        ensures
            entry == listed(old(self).last_line(), (metadata, parsed)),
            final(self).last_line() == Some(metadata.line),
    {
        let line = if self.prev_line == Some(metadata.line) {
            None
        } else {
            self.prev_line = Some(metadata.line);
            Some(metadata.line)
        };
        Listed { pos: metadata.pos, line, parsed }
    }
}

} // verus!
