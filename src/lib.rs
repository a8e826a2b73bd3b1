//! A two-pass assembler for the x69, a 16-register, byte-oriented CPU.
//!
//! Source text is split into lines, each line into tokens (`lexer`), and each
//! token line into a parsed line (`parser`, with the operand grammar in
//! `operands` and the mnemonic table in `instruction`). The code generator
//! (`codegen`) lays the parsed lines out into a flat byte image and then
//! patches every label reference with the label's final address. `program`
//! puts the two together; `resolution` proves what label resolution leaves
//! at each reference.

mod codegen;
mod instruction;
mod lexer;
mod operands;
mod parser;
mod program;
mod resolution;
mod text;

pub use codegen::{assemble_lines, Register};
pub use instruction::{Instruction, OperandMode, RegisterMap};
pub use lexer::{tokenize, Token};
pub use operands::{make_register, read_literal};
pub use parser::{
    include_paths, parse_line, parse_raw, split_lines, DataByte, Directive, Line, LineData, Log,
    ParseOptions, Parameters,
};
pub use program::assemble;
pub use text::chars_of;
