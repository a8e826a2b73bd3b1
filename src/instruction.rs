//! The instruction set: every mnemonic with its opcode byte, the operands it
//! takes and the order in which its two register operands are packed.

use vstd::prelude::*;

use crate::text::{upper, upper_char, upper_of};
use OperandMode::{NoParams, OneOrTwoRegisters, OneRegister, OneRegisterAndImmediate, TwoRegisters, TwoRegistersOrImmediate, TwoRegistersOrLongImmediate};
use RegisterMap::{AA, AB, BA};

verus! {

/// The operand shapes that a mnemonic accepts.
#[derive(Clone, Copy, Debug, PartialEq, Eq)]
pub enum OperandMode {
    /// `NOP`
    NoParams,
    /// `CLR R1`
    OneRegister,
    /// `INC R1, R1` or `INC R1`
    OneOrTwoRegisters,
    /// `SET R1, 69`
    OneRegisterAndImmediate,
    /// `LPC R0, R1`
    TwoRegisters,
    /// `ADD R1, R2`, `ADD R1, 69` or `ADD R0, R1, 123`
    TwoRegistersOrImmediate,
    /// `JMP R1, R2`, `JMP 1234` or `JMP label`
    TwoRegistersOrLongImmediate,
}

/// How the parsed (first, second) register operands become the (low, high)
/// nibbles of the register byte.
#[derive(Clone, Copy, Debug, PartialEq, Eq)]
pub enum RegisterMap {
    AB,
    BA,
    AA,
}

#[derive(Clone, Copy, Debug, PartialEq, Eq)]
pub enum Instruction {
    // ALU operations
    NOP,
    CLR,
    SER,
    NOT,
    TWO,
    AND,
    NND,
    ORR,
    NOR,
    XOR,
    XNR,
    ADD,
    ADC,
    SUB,
    SBC,
    INC,
    DEC,
    MOV,
    MVN,
    SET,
    STN,
    CMP,
    // Memory operations
    LDR,
    SDR,
    // Special registers
    LPC,
    JMP,
    RJMP,
    LLR,
    SLR,
    LSP,
    SSP,
    LADR,
    SADR,
    // Conditional jumps
    JMPZ,
    JMPNZ,
    JMPC,
    JMPNC,
    RJMPZ,
    RJMPNZ,
    RJMPC,
    RJMPNC,
    // Conditional calls
    CALLZ,
    CALLNZ,
    CALLC,
    CALLNC,
    RCALLZ,
    RCALLNZ,
    RCALLC,
    RCALLNC,
}

// Special registers
pub const PC: u8 = 0b00;
pub const LR: u8 = 0b01;
pub const SP: u8 = 0b10;
pub const ADR: u8 = 0b11;

// ALU flags that gate a conditional transfer
pub const ZERO: u8 = 0;
pub const CARRY: u8 = 1;

/// Opcode of a load (`write == false`) or store of a special register.
pub open spec fn rw_opcode(write: bool, register: u8) -> u8 {
    (0b01001000u8 | register) | (if write { 0b100u8 } else { 0u8 })
}

/// Opcode of a conditional jump (`call == false`) or call.
pub open spec fn transfer_opcode(call: bool, relative: bool, check_true: bool, flag: u8) -> u8 {
    (((0b01100000u8 | (if call { 1u8 } else { 0u8 })) | (flag << 2u8))
        | (if relative { 0b10u8 } else { 0u8 })) | (if check_true { 0b10000u8 } else { 0u8 })
}

fn rw_builder(write: bool, register: u8) -> (r: u8)
    ensures
        r == rw_opcode(write, register),
{
    let mut rw = 0b01001000u8 | register;
    if write {
        rw = rw | 0b100;
    } else {
        assert(rw | 0u8 == rw) by (bit_vector);
    }
    rw
}

fn jump_builder(relative: bool, check_true: bool, alu_flag: u8) -> (r: u8)
    requires
        alu_flag <= 1,
    ensures
        r == transfer_opcode(false, relative, check_true, alu_flag),
{
    let mut jmp = 0b01100000u8 | alu_flag << 2u8;
    assert(0b01100000u8 | 0u8 == 0b01100000u8) by (bit_vector);
    if relative {
        jmp = jmp | 0b00000010;
    } else {
        assert(jmp | 0u8 == jmp) by (bit_vector);
    }
    if check_true {
        jmp = jmp | 0b00010000;
    } else {
        assert(jmp | 0u8 == jmp) by (bit_vector);
    }
    jmp
}

fn call_builder(relative: bool, check_true: bool, alu_flag: u8) -> (r: u8)
    requires
        alu_flag <= 1,
    ensures
        r == transfer_opcode(true, relative, check_true, alu_flag),
{
    let mut call = 0b01100001u8 | alu_flag << 2u8;
    assert(0b01100000u8 | 1u8 == 0b01100001u8) by (bit_vector);
    if relative {
        call = call | 0b00000010;
    } else {
        assert(call | 0u8 == call) by (bit_vector);
    }
    if check_true {
        call = call | 0b00010000;
    } else {
        assert(call | 0u8 == call) by (bit_vector);
    }
    call
}

/// The opcode byte of each mnemonic, without the immediate flag (bit 7).
pub open spec fn opcode(i: Instruction) -> u8 {
    match i {
        Instruction::NOP => 0b00101001,
        Instruction::CLR => 0b00100000,
        Instruction::SER => 0b00110000,
        Instruction::NOT => 0b00100001,
        Instruction::TWO => 0b00110001,
        Instruction::AND => 0b00100010,
        Instruction::NND => 0b00110010,
        Instruction::ORR => 0b00100011,
        Instruction::NOR => 0b00110011,
        Instruction::XOR => 0b00100100,
        Instruction::XNR => 0b00110100,
        Instruction::ADD => 0b00100101,
        Instruction::ADC => 0b00110101,
        Instruction::SUB => 0b00100110,
        Instruction::SBC => 0b00110110,
        Instruction::INC => 0b00100111,
        Instruction::DEC => 0b00110111,
        Instruction::MOV => 0b00101000,
        Instruction::MVN => 0b00111000,
        Instruction::SET => 0b00101001,
        Instruction::STN => 0b00111001,
        Instruction::CMP => 0b00101010,
        Instruction::LDR => 0b00010000,
        Instruction::SDR => 0b00010001,
        Instruction::LPC => 0b01001000,
        Instruction::JMP => 0b01000100,
        Instruction::RJMP => 0b01000110,
        Instruction::LLR => 0b01001001,
        Instruction::SLR => 0b01001101,
        Instruction::LSP => 0b01001010,
        Instruction::SSP => 0b01001110,
        Instruction::LADR => 0b01001011,
        Instruction::SADR => 0b01001111,
        Instruction::JMPZ => 0b01110000,
        Instruction::JMPNZ => 0b01100000,
        Instruction::JMPC => 0b01110100,
        Instruction::JMPNC => 0b01100100,
        Instruction::RJMPZ => 0b01110010,
        Instruction::RJMPNZ => 0b01100010,
        Instruction::RJMPC => 0b01110110,
        Instruction::RJMPNC => 0b01100110,
        Instruction::CALLZ => 0b01110001,
        Instruction::CALLNZ => 0b01100001,
        Instruction::CALLC => 0b01110101,
        Instruction::CALLNC => 0b01100101,
        Instruction::RCALLZ => 0b01110011,
        Instruction::RCALLNZ => 0b01100011,
        Instruction::RCALLC => 0b01110111,
        Instruction::RCALLNC => 0b01100111,
    }
}

pub open spec fn operand_mode(i: Instruction) -> OperandMode {
    match i {
        Instruction::NOP => OperandMode::NoParams,
        Instruction::CLR | Instruction::SER => OperandMode::OneRegister,
        Instruction::NOT | Instruction::TWO | Instruction::INC
        | Instruction::DEC => OperandMode::OneOrTwoRegisters,
        Instruction::AND | Instruction::NND | Instruction::ORR | Instruction::NOR
        | Instruction::XOR | Instruction::XNR | Instruction::ADD | Instruction::ADC
        | Instruction::SUB | Instruction::SBC | Instruction::MOV
        | Instruction::MVN => OperandMode::TwoRegistersOrImmediate,
        Instruction::SET | Instruction::STN | Instruction::LDR
        | Instruction::SDR => OperandMode::OneRegisterAndImmediate,
        Instruction::CMP | Instruction::LPC | Instruction::LLR | Instruction::LSP
        | Instruction::LADR => OperandMode::TwoRegisters,
        _ => OperandMode::TwoRegistersOrLongImmediate,
    }
}

pub open spec fn register_map(i: Instruction) -> RegisterMap {
    match i {
        Instruction::CLR | Instruction::SER | Instruction::SET | Instruction::STN
        | Instruction::LDR | Instruction::SDR => RegisterMap::AA,
        Instruction::NOT | Instruction::TWO | Instruction::INC | Instruction::DEC
        | Instruction::AND | Instruction::NND | Instruction::ORR | Instruction::NOR
        | Instruction::XOR | Instruction::XNR | Instruction::ADD | Instruction::ADC
        | Instruction::SUB | Instruction::SBC | Instruction::MOV
        | Instruction::MVN => RegisterMap::BA,
        _ => RegisterMap::AB,
    }
}

/// The upper-case name of each mnemonic.
pub open spec fn mnemonic(i: Instruction) -> Seq<char> {
    match i {
        Instruction::NOP => seq!['N', 'O', 'P'],
        Instruction::CLR => seq!['C', 'L', 'R'],
        Instruction::SER => seq!['S', 'E', 'R'],
        Instruction::NOT => seq!['N', 'O', 'T'],
        Instruction::TWO => seq!['T', 'W', 'O'],
        Instruction::AND => seq!['A', 'N', 'D'],
        Instruction::NND => seq!['N', 'N', 'D'],
        Instruction::ORR => seq!['O', 'R', 'R'],
        Instruction::NOR => seq!['N', 'O', 'R'],
        Instruction::XOR => seq!['X', 'O', 'R'],
        Instruction::XNR => seq!['X', 'N', 'R'],
        Instruction::ADD => seq!['A', 'D', 'D'],
        Instruction::ADC => seq!['A', 'D', 'C'],
        Instruction::SUB => seq!['S', 'U', 'B'],
        Instruction::SBC => seq!['S', 'B', 'C'],
        Instruction::INC => seq!['I', 'N', 'C'],
        Instruction::DEC => seq!['D', 'E', 'C'],
        Instruction::MOV => seq!['M', 'O', 'V'],
        Instruction::MVN => seq!['M', 'V', 'N'],
        Instruction::SET => seq!['S', 'E', 'T'],
        Instruction::STN => seq!['S', 'T', 'N'],
        Instruction::CMP => seq!['C', 'M', 'P'],
        Instruction::LDR => seq!['L', 'D', 'R'],
        Instruction::SDR => seq!['S', 'D', 'R'],
        Instruction::LPC => seq!['L', 'P', 'C'],
        Instruction::JMP => seq!['J', 'M', 'P'],
        Instruction::RJMP => seq!['R', 'J', 'M', 'P'],
        Instruction::LLR => seq!['L', 'L', 'R'],
        Instruction::SLR => seq!['S', 'L', 'R'],
        Instruction::LSP => seq!['L', 'S', 'P'],
        Instruction::SSP => seq!['S', 'S', 'P'],
        Instruction::LADR => seq!['L', 'A', 'D', 'R'],
        Instruction::SADR => seq!['S', 'A', 'D', 'R'],
        Instruction::JMPZ => seq!['J', 'M', 'P', 'Z'],
        Instruction::JMPNZ => seq!['J', 'M', 'P', 'N', 'Z'],
        Instruction::JMPC => seq!['J', 'M', 'P', 'C'],
        Instruction::JMPNC => seq!['J', 'M', 'P', 'N', 'C'],
        Instruction::RJMPZ => seq!['R', 'J', 'M', 'P', 'Z'],
        Instruction::RJMPNZ => seq!['R', 'J', 'M', 'P', 'N', 'Z'],
        Instruction::RJMPC => seq!['R', 'J', 'M', 'P', 'C'],
        Instruction::RJMPNC => seq!['R', 'J', 'M', 'P', 'N', 'C'],
        Instruction::CALLZ => seq!['C', 'A', 'L', 'L', 'Z'],
        Instruction::CALLNZ => seq!['C', 'A', 'L', 'L', 'N', 'Z'],
        Instruction::CALLC => seq!['C', 'A', 'L', 'L', 'C'],
        Instruction::CALLNC => seq!['C', 'A', 'L', 'L', 'N', 'C'],
        Instruction::RCALLZ => seq!['R', 'C', 'A', 'L', 'L', 'Z'],
        Instruction::RCALLNZ => seq!['R', 'C', 'A', 'L', 'L', 'N', 'Z'],
        Instruction::RCALLC => seq!['R', 'C', 'A', 'L', 'L', 'C'],
        Instruction::RCALLNC => seq!['R', 'C', 'A', 'L', 'L', 'N', 'C'],
    }
}

/// The upper-case names that select a mnemonic: its own name, and `STR` for `SDR`.
pub open spec fn is_name_of(i: Instruction, name: Seq<char>) -> bool {
    name == mnemonic(i) || (i == Instruction::SDR && name == seq!['S', 'T', 'R'])
}

/// The first mnemonic, in declaration order, that `name` selects.
pub open spec fn first_named(name: Seq<char>, k: int) -> Option<Instruction>
    decreases all_instructions().len() - k,
{
    if k < 0 || k >= all_instructions().len() {
        None
    } else if is_name_of(all_instructions()[k], name) {
        Some(all_instructions()[k])
    } else {
        first_named(name, k + 1)
    }
}

/// The mnemonic that a name written in any mix of cases selects.
pub open spec fn named(name: Seq<char>) -> Option<Instruction> {
    first_named(upper(name), 0)
}

/// Every mnemonic, in declaration order.
pub open spec fn all_instructions() -> Seq<Instruction> {
    seq![
        Instruction::NOP, Instruction::CLR, Instruction::SER, Instruction::NOT,
        Instruction::TWO, Instruction::AND, Instruction::NND, Instruction::ORR,
        Instruction::NOR, Instruction::XOR, Instruction::XNR, Instruction::ADD,
        Instruction::ADC, Instruction::SUB, Instruction::SBC, Instruction::INC,
        Instruction::DEC, Instruction::MOV, Instruction::MVN, Instruction::SET,
        Instruction::STN, Instruction::CMP, Instruction::LDR, Instruction::SDR,
        Instruction::LPC, Instruction::JMP, Instruction::RJMP, Instruction::LLR,
        Instruction::SLR, Instruction::LSP, Instruction::SSP, Instruction::LADR,
        Instruction::SADR, Instruction::JMPZ, Instruction::JMPNZ, Instruction::JMPC,
        Instruction::JMPNC, Instruction::RJMPZ, Instruction::RJMPNZ, Instruction::RJMPC,
        Instruction::RJMPNC, Instruction::CALLZ, Instruction::CALLNZ, Instruction::CALLC,
        Instruction::CALLNC, Instruction::RCALLZ, Instruction::RCALLNZ, Instruction::RCALLC,
        Instruction::RCALLNC,
    ]
}

/// The place of each mnemonic in `all_instructions`.
pub open spec fn position(i: Instruction) -> int {
    match i {
        Instruction::NOP => 0,
        Instruction::CLR => 1,
        Instruction::SER => 2,
        Instruction::NOT => 3,
        Instruction::TWO => 4,
        Instruction::AND => 5,
        Instruction::NND => 6,
        Instruction::ORR => 7,
        Instruction::NOR => 8,
        Instruction::XOR => 9,
        Instruction::XNR => 10,
        Instruction::ADD => 11,
        Instruction::ADC => 12,
        Instruction::SUB => 13,
        Instruction::SBC => 14,
        Instruction::INC => 15,
        Instruction::DEC => 16,
        Instruction::MOV => 17,
        Instruction::MVN => 18,
        Instruction::SET => 19,
        Instruction::STN => 20,
        Instruction::CMP => 21,
        Instruction::LDR => 22,
        Instruction::SDR => 23,
        Instruction::LPC => 24,
        Instruction::JMP => 25,
        Instruction::RJMP => 26,
        Instruction::LLR => 27,
        Instruction::SLR => 28,
        Instruction::LSP => 29,
        Instruction::SSP => 30,
        Instruction::LADR => 31,
        Instruction::SADR => 32,
        Instruction::JMPZ => 33,
        Instruction::JMPNZ => 34,
        Instruction::JMPC => 35,
        Instruction::JMPNC => 36,
        Instruction::RJMPZ => 37,
        Instruction::RJMPNZ => 38,
        Instruction::RJMPC => 39,
        Instruction::RJMPNC => 40,
        Instruction::CALLZ => 41,
        Instruction::CALLNZ => 42,
        Instruction::CALLC => 43,
        Instruction::CALLNC => 44,
        Instruction::RCALLZ => 45,
        Instruction::RCALLNZ => 46,
        Instruction::RCALLC => 47,
        Instruction::RCALLNC => 48,
    }
}

/// Every mnemonic stands in `all_instructions`, at its position.
pub proof fn lemma_all_instructions(i: Instruction)
    ensures
        0 <= position(i) < all_instructions().len(),
        all_instructions()[position(i)] == i,
{
}

/// The composed opcodes of the special-register and conditional transfer
/// mnemonics are the bytes of the table.
proof fn lemma_composed_opcodes()
    ensures
        rw_opcode(false, PC) == 0b01001000u8,
        rw_opcode(false, LR) == 0b01001001u8,
        rw_opcode(true, LR) == 0b01001101u8,
        rw_opcode(false, SP) == 0b01001010u8,
        rw_opcode(true, SP) == 0b01001110u8,
        rw_opcode(false, ADR) == 0b01001011u8,
        rw_opcode(true, ADR) == 0b01001111u8,
        transfer_opcode(false, false, true, ZERO) == 0b01110000u8,
        transfer_opcode(false, false, false, ZERO) == 0b01100000u8,
        transfer_opcode(false, false, true, CARRY) == 0b01110100u8,
        transfer_opcode(false, false, false, CARRY) == 0b01100100u8,
        transfer_opcode(false, true, true, ZERO) == 0b01110010u8,
        transfer_opcode(false, true, false, ZERO) == 0b01100010u8,
        transfer_opcode(false, true, true, CARRY) == 0b01110110u8,
        transfer_opcode(false, true, false, CARRY) == 0b01100110u8,
        transfer_opcode(true, false, true, ZERO) == 0b01110001u8,
        transfer_opcode(true, false, false, ZERO) == 0b01100001u8,
        transfer_opcode(true, false, true, CARRY) == 0b01110101u8,
        transfer_opcode(true, false, false, CARRY) == 0b01100101u8,
        transfer_opcode(true, true, true, ZERO) == 0b01110011u8,
        transfer_opcode(true, true, false, ZERO) == 0b01100011u8,
        transfer_opcode(true, true, true, CARRY) == 0b01110111u8,
        transfer_opcode(true, true, false, CARRY) == 0b01100111u8,
{
    assert(
        (0b01001000u8 | 0u8) | 0u8 == 0b01001000u8
        && (0b01001000u8 | 1u8) | 0u8 == 0b01001001u8
        && (0b01001000u8 | 1u8) | 0b100u8 == 0b01001101u8
        && (0b01001000u8 | 2u8) | 0u8 == 0b01001010u8
        && (0b01001000u8 | 2u8) | 0b100u8 == 0b01001110u8
        && (0b01001000u8 | 3u8) | 0u8 == 0b01001011u8
        && (0b01001000u8 | 3u8) | 0b100u8 == 0b01001111u8
        && (((0b01100000u8 | 0u8) | (0u8 << 2u8)) | 0u8) | 0b10000u8 == 0b01110000u8
        && (((0b01100000u8 | 0u8) | (0u8 << 2u8)) | 0u8) | 0u8 == 0b01100000u8
        && (((0b01100000u8 | 0u8) | (1u8 << 2u8)) | 0u8) | 0b10000u8 == 0b01110100u8
        && (((0b01100000u8 | 0u8) | (1u8 << 2u8)) | 0u8) | 0u8 == 0b01100100u8
        && (((0b01100000u8 | 0u8) | (0u8 << 2u8)) | 0b10u8) | 0b10000u8 == 0b01110010u8
        && (((0b01100000u8 | 0u8) | (0u8 << 2u8)) | 0b10u8) | 0u8 == 0b01100010u8
        && (((0b01100000u8 | 0u8) | (1u8 << 2u8)) | 0b10u8) | 0b10000u8 == 0b01110110u8
        && (((0b01100000u8 | 0u8) | (1u8 << 2u8)) | 0b10u8) | 0u8 == 0b01100110u8
        && (((0b01100000u8 | 1u8) | (0u8 << 2u8)) | 0u8) | 0b10000u8 == 0b01110001u8
        && (((0b01100000u8 | 1u8) | (0u8 << 2u8)) | 0u8) | 0u8 == 0b01100001u8
        && (((0b01100000u8 | 1u8) | (1u8 << 2u8)) | 0u8) | 0b10000u8 == 0b01110101u8
        && (((0b01100000u8 | 1u8) | (1u8 << 2u8)) | 0u8) | 0u8 == 0b01100101u8
        && (((0b01100000u8 | 1u8) | (0u8 << 2u8)) | 0b10u8) | 0b10000u8 == 0b01110011u8
        && (((0b01100000u8 | 1u8) | (0u8 << 2u8)) | 0b10u8) | 0u8 == 0b01100011u8
        && (((0b01100000u8 | 1u8) | (1u8 << 2u8)) | 0b10u8) | 0b10000u8 == 0b01110111u8
        && (((0b01100000u8 | 1u8) | (1u8 << 2u8)) | 0b10u8) | 0u8 == 0b01100111u8
    ) by (bit_vector);
}

impl Instruction {
    /// The opcode byte, operand mode and register mapping of the mnemonic.
    pub fn assemble_info(&self) -> (r: (u8, OperandMode, RegisterMap))
        ensures
            r == (opcode(*self), operand_mode(*self), register_map(*self)),
    {
        proof {
            lemma_composed_opcodes();
        }
        match self {
            Self::NOP => (0b00101001, NoParams, AB),
            Self::CLR => (0b00100000, OneRegister, AA),
            Self::SER => (0b00110000, OneRegister, AA),
            Self::NOT => (0b00100001, OneOrTwoRegisters, BA),
            Self::TWO => (0b00110001, OneOrTwoRegisters, BA),
            Self::AND => (0b00100010, TwoRegistersOrImmediate, BA),
            Self::NND => (0b00110010, TwoRegistersOrImmediate, BA),
            Self::ORR => (0b00100011, TwoRegistersOrImmediate, BA),
            Self::NOR => (0b00110011, TwoRegistersOrImmediate, BA),
            Self::XOR => (0b00100100, TwoRegistersOrImmediate, BA),
            Self::XNR => (0b00110100, TwoRegistersOrImmediate, BA),
            Self::ADD => (0b00100101, TwoRegistersOrImmediate, BA),
            Self::ADC => (0b00110101, TwoRegistersOrImmediate, BA),
            Self::SUB => (0b00100110, TwoRegistersOrImmediate, BA),
            Self::SBC => (0b00110110, TwoRegistersOrImmediate, BA),
            Self::INC => (0b00100111, OneOrTwoRegisters, BA),
            Self::DEC => (0b00110111, OneOrTwoRegisters, BA),
            Self::MOV => (0b00101000, TwoRegistersOrImmediate, BA),
            Self::MVN => (0b00111000, TwoRegistersOrImmediate, BA),
            Self::SET => (0b00101001, OneRegisterAndImmediate, AA),
            Self::STN => (0b00111001, OneRegisterAndImmediate, AA),
            Self::CMP => (0b00101010, TwoRegisters, AB),
            Self::LDR => (0b00010000, OneRegisterAndImmediate, AA),
            Self::SDR => (0b00010001, OneRegisterAndImmediate, AA),
            Self::LPC => (rw_builder(false, PC), TwoRegisters, AB),
            // unconditional transfers: bit 1 selects a relative target
            Self::JMP => (0b01000100, TwoRegistersOrLongImmediate, AB),
            Self::RJMP => (0b01000110, TwoRegistersOrLongImmediate, AB),
            Self::LLR => (rw_builder(false, LR), TwoRegisters, AB),
            Self::SLR => (rw_builder(true, LR), TwoRegistersOrLongImmediate, AB),
            Self::LSP => (rw_builder(false, SP), TwoRegisters, AB),
            Self::SSP => (rw_builder(true, SP), TwoRegistersOrLongImmediate, AB),
            Self::LADR => (rw_builder(false, ADR), TwoRegisters, AB),
            Self::SADR => (rw_builder(true, ADR), TwoRegistersOrLongImmediate, AB),
            Self::JMPZ => (jump_builder(false, true, ZERO), TwoRegistersOrLongImmediate, AB),
            Self::JMPNZ => (jump_builder(false, false, ZERO), TwoRegistersOrLongImmediate, AB),
            Self::JMPC => (jump_builder(false, true, CARRY), TwoRegistersOrLongImmediate, AB),
            Self::JMPNC => (jump_builder(false, false, CARRY), TwoRegistersOrLongImmediate, AB),
            Self::RJMPZ => (jump_builder(true, true, ZERO), TwoRegistersOrLongImmediate, AB),
            Self::RJMPNZ => (jump_builder(true, false, ZERO), TwoRegistersOrLongImmediate, AB),
            Self::RJMPC => (jump_builder(true, true, CARRY), TwoRegistersOrLongImmediate, AB),
            Self::RJMPNC => (jump_builder(true, false, CARRY), TwoRegistersOrLongImmediate, AB),
            Self::CALLZ => (call_builder(false, true, ZERO), TwoRegistersOrLongImmediate, AB),
            Self::CALLNZ => (call_builder(false, false, ZERO), TwoRegistersOrLongImmediate, AB),
            Self::CALLC => (call_builder(false, true, CARRY), TwoRegistersOrLongImmediate, AB),
            Self::CALLNC => (call_builder(false, false, CARRY), TwoRegistersOrLongImmediate, AB),
            Self::RCALLZ => (call_builder(true, true, ZERO), TwoRegistersOrLongImmediate, AB),
            Self::RCALLNZ => (call_builder(true, false, ZERO), TwoRegistersOrLongImmediate, AB),
            Self::RCALLC => (call_builder(true, true, CARRY), TwoRegistersOrLongImmediate, AB),
            Self::RCALLNC => (call_builder(true, false, CARRY), TwoRegistersOrLongImmediate, AB),
        }
    }

    /// The upper-case name of the mnemonic, as characters.
    pub fn name_chars(&self) -> (r: Vec<char>)
        ensures
            r@ == mnemonic(*self),
    {
        let r = match self {
            Instruction::NOP => vec!['N', 'O', 'P'],
            Instruction::CLR => vec!['C', 'L', 'R'],
            Instruction::SER => vec!['S', 'E', 'R'],
            Instruction::NOT => vec!['N', 'O', 'T'],
            Instruction::TWO => vec!['T', 'W', 'O'],
            Instruction::AND => vec!['A', 'N', 'D'],
            Instruction::NND => vec!['N', 'N', 'D'],
            Instruction::ORR => vec!['O', 'R', 'R'],
            Instruction::NOR => vec!['N', 'O', 'R'],
            Instruction::XOR => vec!['X', 'O', 'R'],
            Instruction::XNR => vec!['X', 'N', 'R'],
            Instruction::ADD => vec!['A', 'D', 'D'],
            Instruction::ADC => vec!['A', 'D', 'C'],
            Instruction::SUB => vec!['S', 'U', 'B'],
            Instruction::SBC => vec!['S', 'B', 'C'],
            Instruction::INC => vec!['I', 'N', 'C'],
            Instruction::DEC => vec!['D', 'E', 'C'],
            Instruction::MOV => vec!['M', 'O', 'V'],
            Instruction::MVN => vec!['M', 'V', 'N'],
            Instruction::SET => vec!['S', 'E', 'T'],
            Instruction::STN => vec!['S', 'T', 'N'],
            Instruction::CMP => vec!['C', 'M', 'P'],
            Instruction::LDR => vec!['L', 'D', 'R'],
            Instruction::SDR => vec!['S', 'D', 'R'],
            Instruction::LPC => vec!['L', 'P', 'C'],
            Instruction::JMP => vec!['J', 'M', 'P'],
            Instruction::RJMP => vec!['R', 'J', 'M', 'P'],
            Instruction::LLR => vec!['L', 'L', 'R'],
            Instruction::SLR => vec!['S', 'L', 'R'],
            Instruction::LSP => vec!['L', 'S', 'P'],
            Instruction::SSP => vec!['S', 'S', 'P'],
            Instruction::LADR => vec!['L', 'A', 'D', 'R'],
            Instruction::SADR => vec!['S', 'A', 'D', 'R'],
            Instruction::JMPZ => vec!['J', 'M', 'P', 'Z'],
            Instruction::JMPNZ => vec!['J', 'M', 'P', 'N', 'Z'],
            Instruction::JMPC => vec!['J', 'M', 'P', 'C'],
            Instruction::JMPNC => vec!['J', 'M', 'P', 'N', 'C'],
            Instruction::RJMPZ => vec!['R', 'J', 'M', 'P', 'Z'],
            Instruction::RJMPNZ => vec!['R', 'J', 'M', 'P', 'N', 'Z'],
            Instruction::RJMPC => vec!['R', 'J', 'M', 'P', 'C'],
            Instruction::RJMPNC => vec!['R', 'J', 'M', 'P', 'N', 'C'],
            Instruction::CALLZ => vec!['C', 'A', 'L', 'L', 'Z'],
            Instruction::CALLNZ => vec!['C', 'A', 'L', 'L', 'N', 'Z'],
            Instruction::CALLC => vec!['C', 'A', 'L', 'L', 'C'],
            Instruction::CALLNC => vec!['C', 'A', 'L', 'L', 'N', 'C'],
            Instruction::RCALLZ => vec!['R', 'C', 'A', 'L', 'L', 'Z'],
            Instruction::RCALLNZ => vec!['R', 'C', 'A', 'L', 'L', 'N', 'Z'],
            Instruction::RCALLC => vec!['R', 'C', 'A', 'L', 'L', 'C'],
            Instruction::RCALLNC => vec!['R', 'C', 'A', 'L', 'L', 'N', 'C'],
        };
        assert(r@ =~= mnemonic(*self));
        r
    }

    /// The upper-case name of the mnemonic.
    pub fn to_str(&self) -> (r: String)
        ensures
            r@ == mnemonic(*self),
    {
        let chars = self.name_chars();
        crate::text::string_of(&chars, 0, chars.len())
    }

    /// Every mnemonic, in declaration order.
    pub fn all() -> (r: Vec<Instruction>)
        ensures
            r@ == all_instructions(),
    {
        let r = vec![
        Instruction::NOP,
        Instruction::CLR,
        Instruction::SER,
        Instruction::NOT,
        Instruction::TWO,
        Instruction::AND,
        Instruction::NND,
        Instruction::ORR,
        Instruction::NOR,
        Instruction::XOR,
        Instruction::XNR,
        Instruction::ADD,
        Instruction::ADC,
        Instruction::SUB,
        Instruction::SBC,
        Instruction::INC,
        Instruction::DEC,
        Instruction::MOV,
        Instruction::MVN,
        Instruction::SET,
        Instruction::STN,
        Instruction::CMP,
        Instruction::LDR,
        Instruction::SDR,
        Instruction::LPC,
        Instruction::JMP,
        Instruction::RJMP,
        Instruction::LLR,
        Instruction::SLR,
        Instruction::LSP,
        Instruction::SSP,
        Instruction::LADR,
        Instruction::SADR,
        Instruction::JMPZ,
        Instruction::JMPNZ,
        Instruction::JMPC,
        Instruction::JMPNC,
        Instruction::RJMPZ,
        Instruction::RJMPNZ,
        Instruction::RJMPC,
        Instruction::RJMPNC,
        Instruction::CALLZ,
        Instruction::CALLNZ,
        Instruction::CALLC,
        Instruction::CALLNC,
        Instruction::RCALLZ,
        Instruction::RCALLNZ,
        Instruction::RCALLC,
        Instruction::RCALLNC,
        ];
        assert(r@ =~= all_instructions());
        r
    }

    /// Whether the upper-case text `name` selects this mnemonic.
    fn has_name(&self, name: &Vec<char>) -> (r: bool)
        ensures
            r == is_name_of(*self, name@),
    {
        let own = self.name_chars();
        if chars_equal(&own, name) {
            return true;
        }
        match self {
            Self::SDR => {
                let alias = vec!['S', 'T', 'R'];
                assert(alias@ =~= seq!['S', 'T', 'R']);
                chars_equal(&alias, name)
            },
            _ => false,
        }
    }

    /// The mnemonic that `name` selects, compared without regard to case
    /// (`STR` is a second name of `SDR`).
    pub fn from_name(name: &Vec<char>) -> (r: Option<Instruction>)
        ensures
            r == named(name@),
            r matches Some(i) ==> is_name_of(i, upper(name@)),
            r is None ==> forall|i: Instruction| !is_name_of(i, upper(name@)),
    {
        let mut up: Vec<char> = Vec::new();
        let mut k: usize = 0;
        while k < name.len()
            invariant
                k <= name@.len(),
                up@ == upper(name@.subrange(0, k as int)),
            decreases name@.len() - k,
        {
            up.push(upper_of(name[k]));
            assert(upper(name@.subrange(0, k + 1)) =~= upper(name@.subrange(0, k as int)).push(upper_char(name@[k as int])));
            k = k + 1;
        }
        assert(name@.subrange(0, name@.len() as int) =~= name@);
        let all = Instruction::all();
        let mut j: usize = 0;
        while j < all.len()
            invariant
                all@ == all_instructions(),
                j <= all@.len(),
                up@ == upper(name@),
                first_named(up@, 0) == first_named(up@, j as int),
                forall|m: int| 0 <= m < j ==> !is_name_of(all_instructions()[m], up@),
            decreases all@.len() - j,
        {
            if all[j].has_name(&up) {
                return Some(all[j]);
            }
            j = j + 1;
        }
        assert forall|i: Instruction| !is_name_of(i, upper(name@)) by {
            lemma_all_instructions(i);
        }
        None
    }
}

/// Whether two character sequences are equal.
pub fn chars_equal(a: &Vec<char>, b: &Vec<char>) -> (r: bool)
    ensures
        r == (a@ == b@),
{
    if a.len() != b.len() {
        return false;
    }
    let mut i: usize = 0;
    while i < a.len()
        invariant
            a@.len() == b@.len(),
            i <= a@.len(),
            forall|m: int| 0 <= m < i ==> a@[m] == b@[m],
        decreases a@.len() - i,
    {
        if a[i] != b[i] {
            return false;
        }
        i = i + 1;
    }
    assert(a@ =~= b@);
    true
}

} // verus!
