//! Whole programs: assembling a source text, and the laws that hold of it.

use vstd::prelude::*;

use crate::codegen::{assemble_lines, assembled, assembly_logs, encode};
use crate::instruction::{register_map, Instruction, RegisterMap};
use crate::parser::{
    logs_view, parse_lines, parse_raw, source_lines, Line, LineView, Log, LogView, ParametersView,
};

verus! {

/// The parsed lines of a source text that includes no files.
pub open spec fn program(source: Seq<char>) -> Seq<LineView> {
    parse_lines(source_lines(source), "[unknown]"@, seq![]).lines
}

/// The diagnostics of parsing a source text that includes no files.
pub open spec fn program_logs(source: Seq<char>) -> Seq<LogView> {
    parse_lines(source_lines(source), "[unknown]"@, seq![]).logs
}

/// Assembles a source text whose include directives splice in nothing:
/// the binary image, and the diagnostics of parsing and then of code
/// generation.
pub fn assemble(source: &str) -> (r: (Vec<u8>, Vec<Log>))
    ensures
        r.0@ == assembled(program(source@)),
        logs_view(r.1@) == program_logs(source@) + assembly_logs(program(source@)),
{
    let (lines, mut logs) = parse_raw(source, None, Vec::new());
    proof {
        assert(crate::parser::files_view(Seq::<(Vec<Line>, Vec<Log>)>::empty()) =~= seq![]);
    }
    let image = assemble_lines(lines.as_slice(), &mut logs);
    (image, logs)
}

/// The two registers that a register byte holds, undoing the register
/// mapping: low nibble then high nibble for `AB`, the reverse for `BA`, and
/// the low nibble twice for `AA`.
pub open spec fn disassemble_registers(m: RegisterMap, byte: u8) -> (u8, u8) {
    let lo = byte & 0x0F;
    let hi = byte >> 4u8;
    match m {
        RegisterMap::AB => (lo, hi),
        RegisterMap::BA => (hi, lo),
        RegisterMap::AA => (lo, lo),
    }
}

/// An instruction encoded without an immediate is two bytes, and its
/// register byte disassembles back to the two register operands. A mapping
/// `AA` keeps only the first register, so there the two are the same.
pub proof fn lemma_register_round_trip(ins: Instruction, a: u8, b: u8)
    requires
        a <= 15,
        b <= 15,
        register_map(ins) == RegisterMap::AA ==> a == b,
    ensures
        encode(ins, ParametersView::TwoRegisters(a, b)).len() == 2,
        disassemble_registers(register_map(ins), encode(ins, ParametersView::TwoRegisters(a, b))[1])
            == (a, b),
        encode(ins, ParametersView::OneRegister(a)).len() == 2,
        disassemble_registers(register_map(ins), encode(ins, ParametersView::OneRegister(a))[1])
            == (a, a),
{
    assert(((a & 0x0F) | (b << 4u8 & 0xF0)) & 0x0F == a && ((a & 0x0F) | (b << 4u8 & 0xF0)) >> 4u8 == b
        && ((b & 0x0F) | (a << 4u8 & 0xF0)) & 0x0F == b && ((b & 0x0F) | (a << 4u8 & 0xF0)) >> 4u8 == a
        && ((a & 0x0F) | (a << 4u8 & 0xF0)) & 0x0F == a && ((a & 0x0F) | (a << 4u8 & 0xF0)) >> 4u8 == a)
        by (bit_vector)
        requires
            a <= 15,
            b <= 15,
    ;
}

/// Assembling is a function of the source text: two runs on the same text
/// give the same image and the same diagnostics.
pub proof fn lemma_assemble_deterministic(s1: Seq<char>, s2: Seq<char>)
    requires
        s1 == s2,
    ensures
        assembled(program(s1)) == assembled(program(s2)),
        program_logs(s1) + assembly_logs(program(s1)) == program_logs(s2) + assembly_logs(program(s2)),
{
}

} // verus!
