//! The grammar of one line of tokens: numeric literals, registers, the
//! directives and the operand shapes of each operand mode.

use vstd::prelude::*;
use vstd::string::StringExecFns;
use vstd::utf8::encode_utf8;

use crate::codegen::Register;
use crate::instruction::{mnemonic, named, operand_mode, Instruction, OperandMode};
use crate::lexer::{Token, TokenView};
use crate::parser::{
    data_view, DataByte, DataByteView, Directive, DirectiveView, LineData, LineDataView,
    Parameters, ParametersView,
};
use crate::text::{chars_of, owned};

verus! {

// Numeric literals

/// Why a run of digits is not a number of the target width.
#[derive(Clone, Copy, Debug, PartialEq, Eq)]
pub enum DigitsError {
    Empty,
    InvalidDigit,
    Overflow,
}

pub open spec fn digit_value(c: char, radix: nat) -> Option<nat> {
    let v: int = if '0' <= c <= '9' {
        (c as u32) as int - ('0' as u32) as int
    } else if 'a' <= c <= 'z' {
        (c as u32) as int - ('a' as u32) as int + 10
    } else if 'A' <= c <= 'Z' {
        (c as u32) as int - ('A' as u32) as int + 10
    } else {
        99
    };
    if v < radix {
        Some(v as nat)
    } else {
        None
    }
}

/// Reads digits left to right; the first invalid digit or the first step
/// past `max` decides the error.
pub open spec fn scan_digits(s: Seq<char>, radix: nat, max: nat) -> Result<nat, DigitsError>
    decreases s.len(),
{
    if s.len() == 0 {
        Ok(0)
    } else {
        match scan_digits(s.drop_last(), radix, max) {
            Err(e) => Err(e),
            Ok(v) => match digit_value(s.last(), radix) {
                None => Err(DigitsError::InvalidDigit),
                Some(d) => if v * radix + d > max {
                    Err(DigitsError::Overflow)
                } else {
                    Ok(v * radix + d)
                },
            },
        }
    }
}

/// The number that the digits `s` write in base `radix`, if it is at most `max`.
pub open spec fn parse_digits(s: Seq<char>, radix: nat, max: nat) -> Result<nat, DigitsError> {
    if s.len() == 0 {
        Err(DigitsError::Empty)
    } else {
        scan_digits(s, radix, max)
    }
}

pub open spec fn reason(e: DigitsError) -> Seq<char> {
    match e {
        DigitsError::Empty => "cannot parse integer from empty string"@,
        DigitsError::InvalidDigit => "invalid digit found in string"@,
        DigitsError::Overflow => "number too large to fit in target type"@,
    }
}

pub open spec fn width_max(wide: bool) -> nat {
    if wide {
        65535
    } else {
        255
    }
}

pub open spec fn width_bits(wide: bool) -> nat {
    if wide {
        16
    } else {
        8
    }
}

pub open spec fn truncation_message(im: Seq<char>, wide: bool) -> Seq<char> {
    "immediate "@ + im + " will be truncated to "@ + (if wide {
        "a 16"@
    } else {
        "an 8"@
    }) + "-bit value"@
}

pub open spec fn literal_error(im: Seq<char>, e: DigitsError) -> Seq<char> {
    "could not parse "@ + im + ": "@ + reason(e)
}

/// What a numeric literal reads as, for an 8-bit or (`wide`) 16-bit target.
pub struct Literal {
    /// The warning that leading digits are dropped
    pub warning: Option<Seq<char>>,
    /// The value, or the error message
    pub value: Result<nat, Seq<char>>,
}

/// `0x` and `0b` literals keep only as many trailing digits as the width
/// holds (4 bits per hex digit, 1 per binary digit) and warn when they drop
/// any; decimal literals must fit.
pub open spec fn literal(im: Seq<char>, wide: bool) -> Literal {
    let bits = width_bits(wide);
    if im.len() >= 2 && im[0] == '0' && (im[1] == 'x' || im[1] == 'b') {
        let radix: nat = if im[1] == 'x' {
            16
        } else {
            2
        };
        let keep: nat = if im[1] == 'x' {
            bits / 4
        } else {
            bits
        };
        let truncated = im.len() > keep + 2;
        let digits = if truncated {
            im.subrange(im.len() - keep, im.len() as int)
        } else {
            im.subrange(2, im.len() as int)
        };
        Literal {
            warning: if truncated {
                Some(truncation_message(im, wide))
            } else {
                None
            },
            value: match parse_digits(digits, radix, width_max(wide)) {
                Ok(v) => Ok(v),
                Err(e) => Err(literal_error(im, e)),
            },
        }
    } else {
        Literal {
            warning: None,
            value: match parse_digits(im, 10, width_max(wide)) {
                Ok(v) => Ok(v),
                Err(e) => Err(literal_error(im, e)),
            },
        }
    }
}

pub open spec fn register_message(digits: Seq<char>) -> Seq<char> {
    "register out of bounds: "@ + digits
}

/// The register that the digits after `r` name.
pub open spec fn register_result(digits: Seq<char>) -> Result<u8, Seq<char>> {
    match parse_digits(digits, 10, 255) {
        Ok(v) => if v <= 15 {
            Ok(v as u8)
        } else {
            Err(register_message(digits))
        },
        Err(_) => Err(register_message(digits)),
    }
}

// Token descriptions

pub open spec fn quoted(kind: Seq<char>, s: Seq<char>) -> Seq<char> {
    kind + "(\""@ + s + "\")"@
}

/// How a token is shown in a message.
pub open spec fn describe(t: TokenView) -> Seq<char> {
    match t {
        TokenView::Ident(s) => quoted("Ident"@, s),
        TokenView::Label(s) => quoted("Label"@, s),
        TokenView::String(s) => quoted("String"@, s),
        TokenView::Directive(s) => quoted("Directive"@, s),
        TokenView::Immediate(s) => quoted("Immediate"@, s),
        TokenView::Register(s) => quoted("Register"@, s),
        TokenView::Comma => "Comma"@,
        TokenView::Error => "Error"@,
    }
}

/// A message about an offending token.
pub open spec fn about(head: Seq<char>, t: TokenView) -> Seq<char> {
    head + ": "@ + describe(t)
}

// Line outcomes

/// How the parse of a line ends.
pub enum LineEnd {
    /// A parsed line
    Data(LineDataView),
    /// A file to splice in at this point
    Include(Seq<char>),
    /// An error; the rest of the line is abandoned
    Fail(Seq<char>),
    /// A warning, and no parsed line
    Note(Seq<char>),
    /// Nothing more on the line
    Nothing,
}

pub struct Outcome {
    pub warnings: Seq<Seq<char>>,
    pub end: LineEnd,
}

pub open spec fn fail(m: Seq<char>) -> Outcome {
    Outcome { warnings: seq![], end: LineEnd::Fail(m) }
}

pub open spec fn done(d: LineDataView) -> Outcome {
    Outcome { warnings: seq![], end: LineEnd::Data(d) }
}

pub open spec fn instr(ins: Instruction, p: ParametersView) -> Outcome {
    done(LineDataView::Instruction(ins, p))
}

pub open spec fn opt_seq(w: Option<Seq<char>>) -> Seq<Seq<char>> {
    match w {
        Some(m) => seq![m],
        None => seq![],
    }
}

/// `o`, after the warning `w` if there is one.
pub open spec fn warned(w: Option<Seq<char>>, o: Outcome) -> Outcome {
    Outcome { warnings: opt_seq(w) + o.warnings, end: o.end }
}

pub open spec fn tk(t: Seq<TokenView>, i: int) -> Option<TokenView> {
    if 0 <= i < t.len() {
        Some(t[i])
    } else {
        None
    }
}

/// An 8-bit literal followed by the end of the line.
pub open spec fn last_imm8(
    t: Seq<TokenView>,
    p: int,
    im: Seq<char>,
    make: spec_fn(u8) -> ParametersView,
    ins: Instruction,
) -> Outcome {
    let lit = literal(im, false);
    warned(
        lit.warning,
        match lit.value {
            Err(m) => fail(m),
            Ok(v) => match tk(t, p) {
                None => instr(ins, make(v as u8)),
                Some(x) => fail(about("unexpected token after immediate"@, x)),
            },
        },
    )
}

// The operand shapes

pub open spec fn ops_none(ins: Instruction, t: Seq<TokenView>, p: int) -> Outcome {
    match tk(t, p) {
        None => instr(ins, ParametersView::NoOperands),
        Some(x) => fail(about(mnemonic(ins) + " expects zero parameters, got"@, x)),
    }
}

pub open spec fn ops_one(ins: Instruction, t: Seq<TokenView>, p: int) -> Outcome {
    match tk(t, p) {
        Some(TokenView::Register(r)) => match register_result(r) {
            Err(m) => fail(m),
            Ok(a) => match tk(t, p + 1) {
                None => instr(ins, ParametersView::OneRegister(a)),
                Some(x) => fail(about("unexpected token after register"@, x)),
            },
        },
        Some(x) => fail(about(mnemonic(ins) + " expectes one register, got"@, x)),
        None => fail(mnemonic(ins) + " requires one register"@),
    }
}

pub open spec fn ops_one_or_two(ins: Instruction, t: Seq<TokenView>, p: int) -> Outcome {
    match tk(t, p) {
        Some(TokenView::Register(r)) => match register_result(r) {
            Err(m) => fail(m),
            Ok(a) => match tk(t, p + 1) {
                None => instr(ins, ParametersView::OneRegister(a)),
                Some(TokenView::Comma) => match tk(t, p + 2) {
                    Some(TokenView::Register(r2)) => match register_result(r2) {
                        Err(m) => fail(m),
                        Ok(b) => match tk(t, p + 3) {
                            None => instr(ins, ParametersView::TwoRegisters(a, b)),
                            Some(x) => fail(about("unexpected token after second register"@, x)),
                        },
                    },
                    Some(x) => fail(about("expected a register, got"@, x)),
                    None => fail("trailing ','s are not allowed"@),
                },
                Some(x) => fail(about("expected ',' after first register, got"@, x)),
            },
        },
        Some(x) => fail(about(mnemonic(ins) + " expects at leat one register, got"@, x)),
        None => fail(mnemonic(ins) + " expects at least one register"@),
    }
}

pub open spec fn ops_one_imm(ins: Instruction, t: Seq<TokenView>, p: int) -> Outcome {
    match tk(t, p) {
        Some(TokenView::Register(r)) => match register_result(r) {
            Err(m) => fail(m),
            Ok(a) => match tk(t, p + 1) {
                Some(TokenView::Comma) => match tk(t, p + 2) {
                    Some(TokenView::Immediate(im)) => last_imm8(
                        t,
                        p + 3,
                        im,
                        |v: u8| ParametersView::OneRegisterImmediate(a, v),
                        ins,
                    ),
                    Some(x) => fail(about("expected a regsiter, got"@, x)),
                    None => fail("trailing ','s are not allowed"@),
                },
                Some(x) => fail(about("expected ',' after register, got"@, x)),
                None => fail(mnemonic(ins) + " expects one register and an immediate"@),
            },
        },
        Some(x) => fail(about(mnemonic(ins) + " expects one register and an immediate, got"@, x)),
        None => fail(mnemonic(ins) + " expects one register and an immediate"@),
    }
}

pub open spec fn ops_two(ins: Instruction, t: Seq<TokenView>, p: int) -> Outcome {
    match tk(t, p) {
        Some(TokenView::Register(r)) => match register_result(r) {
            Err(m) => fail(m),
            Ok(a) => match tk(t, p + 1) {
                Some(TokenView::Comma) => match tk(t, p + 2) {
                    Some(TokenView::Register(r2)) => match register_result(r2) {
                        Err(m) => fail(m),
                        Ok(b) => match tk(t, p + 3) {
                            None => instr(ins, ParametersView::TwoRegisters(a, b)),
                            Some(x) => fail(about("unexpected token after second register"@, x)),
                        },
                    },
                    Some(x) => fail(about("expected a regsiter, got"@, x)),
                    None => fail(mnemonic(ins) + " expects two registers"@),
                },
                Some(x) => fail(about("expected ',' after first register, got"@, x)),
                None => fail(mnemonic(ins) + " expects two registers"@),
            },
        },
        Some(x) => fail(about(mnemonic(ins) + " expects two registers, got"@, x)),
        None => fail(mnemonic(ins) + " expects two registers"@),
    }
}

/// After `reg, reg`: the end of the line, or a comma and an 8-bit literal.
pub open spec fn ops_two_tail(ins: Instruction, t: Seq<TokenView>, p: int, a: u8, b: u8) -> Outcome {
    match tk(t, p) {
        None => instr(ins, ParametersView::TwoRegisters(a, b)),
        Some(TokenView::Comma) => match tk(t, p + 1) {
            Some(TokenView::Immediate(im)) => last_imm8(
                t,
                p + 2,
                im,
                |v: u8| ParametersView::TwoRegistersImmediate(a, b, v),
                ins,
            ),
            Some(x) => fail(about("expected an immediate, got"@, x)),
            None => fail(mnemonic(ins) + " expects two registers and an immediate"@),
        },
        Some(x) => fail(about("expected ',' after second register, got"@, x)),
    }
}

pub open spec fn ops_two_or_imm(ins: Instruction, t: Seq<TokenView>, p: int) -> Outcome {
    match tk(t, p) {
        Some(TokenView::Register(r)) => match register_result(r) {
            Err(m) => fail(m),
            Ok(a) => match tk(t, p + 1) {
                Some(TokenView::Comma) => match tk(t, p + 2) {
                    Some(TokenView::Register(r2)) => match register_result(r2) {
                        Err(m) => fail(m),
                        Ok(b) => ops_two_tail(ins, t, p + 3, a, b),
                    },
                    Some(TokenView::Immediate(im)) => match tk(t, p + 3) {
                        None => {
                            let lit = literal(im, false);
                            warned(
                                lit.warning,
                                match lit.value {
                                    Err(m) => fail(m),
                                    Ok(v) => instr(ins, ParametersView::OneRegisterImmediate(a, v as u8)),
                                },
                            )
                        },
                        Some(x) => fail(about("unexpected token after immediate"@, x)),
                    },
                    Some(x) => fail(about("expected a regsiter or an immediate, got"@, x)),
                    None => fail(mnemonic(ins) + " expects as least two parameters"@),
                },
                Some(x) => fail(about("expected ',' after first register, got"@, x)),
                None => fail(mnemonic(ins) + " expects two registers"@),
            },
        },
        Some(x) => fail(about(mnemonic(ins) + " expects at least two parameters, got"@, x)),
        None => fail(mnemonic(ins) + " expects at least two parameters"@),
    }
}

pub open spec fn ops_two_or_long(ins: Instruction, t: Seq<TokenView>, p: int) -> Outcome {
    match tk(t, p) {
        Some(TokenView::Immediate(im)) => match tk(t, p + 1) {
            None => {
                let lit = literal(im, true);
                warned(
                    lit.warning,
                    match lit.value {
                        Err(m) => fail(m),
                        Ok(v) => instr(ins, ParametersView::LongImmediate(v as u16)),
                    },
                )
            },
            Some(x) => fail(about("unexpected token after immediate"@, x)),
        },
        Some(TokenView::Ident(l)) => match tk(t, p + 1) {
            None => instr(ins, ParametersView::Label(l)),
            Some(x) => fail(about("unexpected token after label"@, x)),
        },
        _ => ops_two(ins, t, p),
    }
}

/// The operands of `ins`, from token `p` on.
pub open spec fn operands(ins: Instruction, t: Seq<TokenView>, p: int) -> Outcome {
    match operand_mode(ins) {
        OperandMode::NoParams => ops_none(ins, t, p),
        OperandMode::OneRegister => ops_one(ins, t, p),
        OperandMode::OneOrTwoRegisters => ops_one_or_two(ins, t, p),
        OperandMode::OneRegisterAndImmediate => ops_one_imm(ins, t, p),
        OperandMode::TwoRegisters => ops_two(ins, t, p),
        OperandMode::TwoRegistersOrImmediate => ops_two_or_imm(ins, t, p),
        OperandMode::TwoRegistersOrLongImmediate => ops_two_or_long(ins, t, p),
    }
}

// Directives

/// The items of a `.db` directive from token `p` on, after `items`.
pub open spec fn data_items(t: Seq<TokenView>, p: int, items: Seq<DataByteView>) -> Outcome
    decreases t.len() - p,
{
    if p < 0 || p >= t.len() {
        if items.len() == 0 {
            Outcome { warnings: seq![], end: LineEnd::Note("empty db field"@) }
        } else {
            done(LineDataView::Directive(DirectiveView::DB(items)))
        }
    } else {
        match t[p] {
            TokenView::Immediate(im) => {
                let lit = literal(im, false);
                warned(
                    lit.warning,
                    match lit.value {
                        Err(m) => fail(m),
                        Ok(v) => data_items(t, p + 1, items.push(DataByteView::Byte(v as u8))),
                    },
                )
            },
            TokenView::Ident(l) => data_items(t, p + 1, items.push(DataByteView::Label(l))),
            TokenView::String(s) => data_items(t, p + 1, items + string_data(s)),
            x => fail(about("unexpected token in db field"@, x)),
        }
    }
}

/// The bytes of a string literal, UTF-8 encoded, as data items.
pub open spec fn string_data(s: Seq<char>) -> Seq<DataByteView> {
    encode_utf8(s).map_values(|b: u8| DataByteView::Byte(b))
}

/// The directive named `d`, with its arguments from token `p` on.
pub open spec fn directive(d: Seq<char>, t: Seq<TokenView>, p: int) -> Outcome {
    if d == "include"@ {
        match tk(t, p) {
            Some(TokenView::String(path)) => Outcome { warnings: seq![], end: LineEnd::Include(path) },
            Some(x) => fail(about("expected a string file path, got"@, x)),
            None => fail("expected a string file path"@),
        }
    } else if d == "line"@ {
        match tk(t, p) {
            Some(TokenView::Immediate(im)) => match tk(t, p + 1) {
                None => {
                    let lit = literal(im, true);
                    warned(
                        lit.warning,
                        match lit.value {
                            Err(m) => fail(m),
                            Ok(v) => done(LineDataView::Directive(DirectiveView::Line(v as u16))),
                        },
                    )
                },
                Some(x) => fail(about("unexpected token after line offset"@, x)),
            },
            Some(x) => fail(about("expected an immediate for line offset, got"@, x)),
            None => fail("expected an immediate for line offset"@),
        }
    } else if d == "db"@ {
        data_items(t, p, seq![])
    } else {
        fail("unknown directive: "@ + d)
    }
}

/// A line after its label, from token `p` on.
pub open spec fn statement(t: Seq<TokenView>, p: int) -> Outcome {
    match tk(t, p) {
        Some(TokenView::Directive(d)) => directive(d, t, p + 1),
        Some(TokenView::Ident(name)) => match named(name) {
            Some(ins) => operands(ins, t, p + 1),
            None => fail("unknown instruction: "@ + name),
        },
        Some(x) => fail(about("unexpected token"@, x)),
        None => Outcome { warnings: seq![], end: LineEnd::Nothing },
    }
}

/// The label that a line of tokens declares, if any.
pub open spec fn line_label(t: Seq<TokenView>) -> Option<Seq<char>> {
    match tk(t, 0) {
        Some(TokenView::Label(l)) => Some(l),
        _ => None,
    }
}

/// What a line of tokens parses to, after its label.
pub open spec fn line_outcome(t: Seq<TokenView>) -> Outcome {
    match tk(t, 0) {
        Some(TokenView::Label(l)) => statement(t, 1),
        _ => statement(t, 0),
    }
}

// Executable parsing

/// How the parse of a line ends, as values.
#[derive(Debug)]
pub enum Parsed {
    Data(LineData),
    Include(String),
    Fail(String),
    Note(String),
    Nothing,
}

impl View for Parsed {
    type V = LineEnd;

    open spec fn view(&self) -> LineEnd {
        match self {
            Parsed::Data(d) => LineEnd::Data(d@),
            Parsed::Include(p) => LineEnd::Include(p@),
            Parsed::Fail(m) => LineEnd::Fail(m@),
            Parsed::Note(m) => LineEnd::Note(m@),
            Parsed::Nothing => LineEnd::Nothing,
        }
    }
}

pub open spec fn strings_view(s: Seq<String>) -> Seq<Seq<char>> {
    s.map_values(|x: String| x@)
}

fn tok_at(t: &Vec<Token>, i: usize) -> (r: Option<&Token>)
    ensures
        r matches Some(x) ==> tk(crate::lexer::tokens_view(t@), i as int) == Some(x@),
        r is None ==> tk(crate::lexer::tokens_view(t@), i as int) is None,
{
    if i < t.len() {
        Some(&t[i])
    } else {
        None
    }
}

fn describe_token(t: &Token) -> (r: String)
    ensures
        r@ == describe(t@),
{
    let (kind, s) = match t {
        Token::Ident(s) => ("Ident", s),
        Token::Label(s) => ("Label", s),
        Token::String(s) => ("String", s),
        Token::Directive(s) => ("Directive", s),
        Token::Immediate(s) => ("Immediate", s),
        Token::Register(s) => ("Register", s),
        Token::Comma => {
            return owned("Comma");
        },
        Token::Error => {
            return owned("Error");
        },
    };
    owned(kind).concat("(\"").concat(s.as_str()).concat("\")")
}

fn about_token(head: String, t: &Token) -> (r: String)
    ensures
        r@ == about(head@, t@),
{
    let d = describe_token(t);
    head.concat(": ").concat(d.as_str())
}

fn name_then(ins: Instruction, tail: &str) -> (r: String)
    ensures
        r@ == mnemonic(ins) + tail@,
{
    ins.to_str().concat(tail)
}

fn digit_of(c: char, radix: u32) -> (r: Option<u32>)
    requires
        radix <= 16,
    ensures
        r matches Some(d) ==> digit_value(c, radix as nat) == Some(d as nat) && d < radix,
        r is None ==> digit_value(c, radix as nat) is None,
{
    let v: u32 = if '0' <= c && c <= '9' {
        (c as u32) - ('0' as u32)
    } else if 'a' <= c && c <= 'z' {
        (c as u32) - ('a' as u32) + 10
    } else if 'A' <= c && c <= 'Z' {
        (c as u32) - ('A' as u32) + 10
    } else {
        99
    };
    if v < radix {
        Some(v)
    } else {
        None
    }
}

/// Reads `s[from..]` as digits in base `radix`, up to `max`.
fn scan(s: &Vec<char>, from: usize, radix: u32, max: u32) -> (r: Result<u32, DigitsError>)
    requires
        from <= s@.len(),
        2 <= radix <= 16,
        max <= 65535,
    ensures
        r matches Ok(v) ==> v <= max,
        match r {
            Ok(v) => scan_digits(s@.subrange(from as int, s@.len() as int), radix as nat, max as nat) == Ok::<nat, DigitsError>(v as nat),
            Err(e) => scan_digits(s@.subrange(from as int, s@.len() as int), radix as nat, max as nat) == Err::<nat, DigitsError>(e),
        },
{
    let mut state: Result<u32, DigitsError> = Ok(0);
    let mut k = from;
    proof {
        assert(s@.subrange(from as int, from as int) =~= Seq::<char>::empty());
    }
    while k < s.len()
        invariant
            from <= k <= s@.len(),
            2 <= radix <= 16,
            max <= 65535,
            state matches Ok(v) ==> v <= max,
            match state {
                Ok(v) => scan_digits(s@.subrange(from as int, k as int), radix as nat, max as nat) == Ok::<nat, DigitsError>(v as nat),
                Err(e) => scan_digits(s@.subrange(from as int, k as int), radix as nat, max as nat) == Err::<nat, DigitsError>(e),
            },
        decreases s@.len() - k,
    {
        proof {
            assert(s@.subrange(from as int, k + 1).drop_last() =~= s@.subrange(from as int, k as int));
            assert(s@.subrange(from as int, k + 1).last() == s@[k as int]);
        }
        match state {
            Ok(v) => {
                match digit_of(s[k], radix) {
                    None => {
                        state = Err(DigitsError::InvalidDigit);
                    },
                    Some(d) => {
                        assert(v * radix + d <= 65535 * 16 + 16) by (nonlinear_arith)
                            requires
                                v <= 65535,
                                radix <= 16,
                                d < radix,
                        ;
                        let next = v * radix + d;
                        if next > max {
                            state = Err(DigitsError::Overflow);
                        } else {
                            state = Ok(next);
                        }
                    },
                }
            },
            Err(_) => {},
        }
        k = k + 1;
    }
    state
}

fn reason_text(e: DigitsError) -> (r: String)
    ensures
        r@ == reason(e),
{
    match e {
        DigitsError::Empty => owned("cannot parse integer from empty string"),
        DigitsError::InvalidDigit => owned("invalid digit found in string"),
        DigitsError::Overflow => owned("number too large to fit in target type"),
    }
}

/// Reads a numeric literal for an 8-bit or (`wide`) 16-bit target, pushing
/// the truncation warning, if any, onto `warnings`.
pub fn read_literal(im: &String, wide: bool, warnings: &mut Vec<String>) -> (r: Result<u16, String>)
    ensures
        strings_view(final(warnings)@) == strings_view(old(warnings)@) + opt_seq(literal(im@, wide).warning),
        r matches Ok(v) ==> literal(im@, wide).value == Ok::<nat, Seq<char>>(v as nat) && v as nat <= width_max(wide),
        r matches Err(m) ==> literal(im@, wide).value == Err::<nat, Seq<char>>(m@),
{
    let s = chars_of(im.as_str());
    let bits: usize = if wide {
        16
    } else {
        8
    };
    let max: u32 = if wide {
        65535
    } else {
        255
    };
    let ghost before = strings_view(warnings@);
    let mut from: usize = 0;
    let mut radix: u32 = 10;
    if s.len() >= 2 && s[0] == '0' && (s[1] == 'x' || s[1] == 'b') {
        let keep: usize = if s[1] == 'x' {
            bits / 4
        } else {
            bits
        };
        radix = if s[1] == 'x' {
            16
        } else {
            2
        };
        if s.len() > keep + 2 {
            let article = if wide {
                "a 16"
            } else {
                "an 8"
            };
            let msg = owned("immediate ").concat(im.as_str()).concat(" will be truncated to ").concat(
                article,
            ).concat("-bit value");
            warnings.push(msg);
            from = s.len() - keep;
        } else {
            from = 2;
        }
    }
    assert(strings_view(warnings@) =~= before + opt_seq(literal(im@, wide).warning));
    proof {
        let digits = s@.subrange(from as int, s@.len() as int);
        if from == 0 {
            assert(digits =~= im@);
        }
        if from == s@.len() {
            assert(digits.len() == 0);
        }
        assert(max as nat == width_max(wide));
    }
    let parsed = if from == s.len() {
        Err(DigitsError::Empty)
    } else {
        scan(&s, from, radix, max)
    };
    match parsed {
        Ok(v) => Ok(v as u16),
        Err(e) => Err(owned("could not parse ").concat(im.as_str()).concat(": ").concat(reason_text(e).as_str())),
    }
}

/// The register that the digits after `r` name, or the error message.
pub fn make_register(digits: &String) -> (r: Result<Register, String>)
    ensures
        r matches Ok(x) ==> register_result(digits@) == Ok::<u8, Seq<char>>(x@),
        r matches Err(m) ==> register_result(digits@) == Err::<u8, Seq<char>>(m@),
{
    let s = chars_of(digits.as_str());
    let parsed = if s.len() == 0 {
        Err(DigitsError::Empty)
    } else {
        scan(&s, 0, 10, 255)
    };
    proof {
        assert(s@.subrange(0, s@.len() as int) =~= s@);
    }
    if let Ok(v) = parsed {
        if let Some(reg) = Register::from_u8(v as u8) {
            if v <= 15 {
                return Ok(reg);
            }
        }
    }
    Err(owned("register out of bounds: ").concat(digits.as_str()))
}

/// `r` and the warnings pushed from `w0` to `w1` are the outcome `o`.
pub open spec fn produced(r: LineEnd, o: Outcome, w0: Seq<String>, w1: Seq<String>) -> bool {
    &&& r == o.end
    &&& strings_view(w1) == strings_view(w0) + o.warnings
}

/// The token `k` places after `p`.
fn tok_after(t: &Vec<Token>, p: usize, k: usize) -> (r: Option<&Token>)
    requires
        p <= t@.len(),
    ensures
        r matches Some(x) ==> tk(crate::lexer::tokens_view(t@), p + k) == Some(x@),
        r is None ==> tk(crate::lexer::tokens_view(t@), p + k) is None,
        r is Some ==> p + k < t@.len(),
{
    if k < t.len() - p {
        Some(&t[p + k])
    } else {
        None
    }
}

fn instruction(ins: Instruction, params: Parameters) -> (r: Parsed)
    ensures
        r@ == instr(ins, params@).end,
{
    Parsed::Data(LineData::Instruction { name: ins, params })
}

fn fail_about(head: String, t: &Token) -> (r: Parsed)
    ensures
        r@ == fail(about(head@, t@)).end,
{
    Parsed::Fail(about_token(head, t))
}

fn exec_none(ins: Instruction, t: &Vec<Token>, p: usize, warnings: &mut Vec<String>) -> (r: Parsed)
    requires
        p <= t@.len(),
    ensures
        produced(r@, ops_none(ins, crate::lexer::tokens_view(t@), p as int), old(warnings)@, final(warnings)@),
{
    proof {
        assert(strings_view(warnings@) =~= strings_view(warnings@) + Seq::<Seq<char>>::empty());
    }
    match tok_after(t, p, 0) {
        None => instruction(ins, Parameters::NoOperands),
        Some(x) => fail_about(name_then(ins, " expects zero parameters, got"), x),
    }
}

fn exec_one(ins: Instruction, t: &Vec<Token>, p: usize, warnings: &mut Vec<String>) -> (r: Parsed)
    requires
        p <= t@.len(),
    ensures
        produced(r@, ops_one(ins, crate::lexer::tokens_view(t@), p as int), old(warnings)@, final(warnings)@),
{
    proof {
        assert(strings_view(warnings@) =~= strings_view(warnings@) + Seq::<Seq<char>>::empty());
    }
    match tok_after(t, p, 0) {
        Some(Token::Register(r)) => match make_register(r) {
            Err(m) => Parsed::Fail(m),
            Ok(a) => match tok_after(t, p, 1) {
                None => instruction(ins, Parameters::OneRegister(a)),
                Some(x) => fail_about(owned("unexpected token after register"), x),
            },
        },
        Some(x) => fail_about(name_then(ins, " expectes one register, got"), x),
        None => Parsed::Fail(name_then(ins, " requires one register")),
    }
}

fn exec_one_or_two(ins: Instruction, t: &Vec<Token>, p: usize, warnings: &mut Vec<String>) -> (r: Parsed)
    requires
        p <= t@.len(),
    ensures
        produced(r@, ops_one_or_two(ins, crate::lexer::tokens_view(t@), p as int), old(warnings)@, final(warnings)@),
{
    proof {
        assert(strings_view(warnings@) =~= strings_view(warnings@) + Seq::<Seq<char>>::empty());
    }
    match tok_after(t, p, 0) {
        Some(Token::Register(r)) => match make_register(r) {
            Err(m) => Parsed::Fail(m),
            Ok(a) => match tok_after(t, p, 1) {
                None => instruction(ins, Parameters::OneRegister(a)),
                Some(Token::Comma) => match tok_after(t, p, 2) {
                    Some(Token::Register(r2)) => match make_register(r2) {
                        Err(m) => Parsed::Fail(m),
                        Ok(b) => match tok_after(t, p, 3) {
                            None => instruction(ins, Parameters::TwoRegisters(a, b)),
                            Some(x) => fail_about(owned("unexpected token after second register"), x),
                        },
                    },
                    Some(x) => fail_about(owned("expected a register, got"), x),
                    None => Parsed::Fail(owned("trailing ','s are not allowed")),
                },
                Some(x) => fail_about(owned("expected ',' after first register, got"), x),
            },
        },
        Some(x) => fail_about(name_then(ins, " expects at leat one register, got"), x),
        None => Parsed::Fail(name_then(ins, " expects at least one register")),
    }
}

/// An 8-bit literal at `p + k`'s predecessor, followed by the end of the line
/// at `p + k`.
fn exec_last_imm8(
    ins: Instruction,
    t: &Vec<Token>,
    p: usize,
    k: usize,
    im: &String,
    a: Register,
    b: Option<Register>,
    warnings: &mut Vec<String>,
) -> (r: Parsed)
    requires
        p <= t@.len(),
    ensures
        produced(
            r@,
            last_imm8(
                crate::lexer::tokens_view(t@),
                p + k,
                im@,
                match b {
                    None => |v: u8| ParametersView::OneRegisterImmediate(a@, v),
                    Some(b) => |v: u8| ParametersView::TwoRegistersImmediate(a@, b@, v),
                },
                ins,
            ),
            old(warnings)@,
            final(warnings)@,
        ),
{
    let lit = read_literal(im, false, warnings);
    let ghost w = strings_view(warnings@);
    let r = match lit {
        Err(m) => Parsed::Fail(m),
        Ok(v) => match tok_after(t, p, k) {
            None => match b {
                None => instruction(ins, Parameters::OneRegisterImmediate(a, v as u8)),
                Some(b) => instruction(ins, Parameters::TwoRegistersImmedaite(a, b, v as u8)),
            },
            Some(x) => fail_about(owned("unexpected token after immediate"), x),
        },
    };
    assert(strings_view(warnings@) =~= strings_view(old(warnings)@) + (opt_seq(literal(im@, false).warning) + Seq::<Seq<char>>::empty()));
    r
}

fn exec_one_imm(ins: Instruction, t: &Vec<Token>, p: usize, warnings: &mut Vec<String>) -> (r: Parsed)
    requires
        p <= t@.len(),
    ensures
        produced(r@, ops_one_imm(ins, crate::lexer::tokens_view(t@), p as int), old(warnings)@, final(warnings)@),
{
    proof {
        assert(strings_view(warnings@) =~= strings_view(warnings@) + Seq::<Seq<char>>::empty());
    }
    match tok_after(t, p, 0) {
        Some(Token::Register(r)) => match make_register(r) {
            Err(m) => Parsed::Fail(m),
            Ok(a) => match tok_after(t, p, 1) {
                Some(Token::Comma) => match tok_after(t, p, 2) {
                    Some(Token::Immediate(im)) => exec_last_imm8(ins, t, p, 3, im, a, None, warnings),
                    Some(x) => fail_about(owned("expected a regsiter, got"), x),
                    None => Parsed::Fail(owned("trailing ','s are not allowed")),
                },
                Some(x) => fail_about(owned("expected ',' after register, got"), x),
                None => Parsed::Fail(name_then(ins, " expects one register and an immediate")),
            },
        },
        Some(x) => fail_about(name_then(ins, " expects one register and an immediate, got"), x),
        None => Parsed::Fail(name_then(ins, " expects one register and an immediate")),
    }
}

fn exec_two(ins: Instruction, t: &Vec<Token>, p: usize, warnings: &mut Vec<String>) -> (r: Parsed)
    requires
        p <= t@.len(),
    ensures
        produced(r@, ops_two(ins, crate::lexer::tokens_view(t@), p as int), old(warnings)@, final(warnings)@),
{
    proof {
        assert(strings_view(warnings@) =~= strings_view(warnings@) + Seq::<Seq<char>>::empty());
    }
    match tok_after(t, p, 0) {
        Some(Token::Register(r)) => match make_register(r) {
            Err(m) => Parsed::Fail(m),
            Ok(a) => match tok_after(t, p, 1) {
                Some(Token::Comma) => match tok_after(t, p, 2) {
                    Some(Token::Register(r2)) => match make_register(r2) {
                        Err(m) => Parsed::Fail(m),
                        Ok(b) => match tok_after(t, p, 3) {
                            None => instruction(ins, Parameters::TwoRegisters(a, b)),
                            Some(x) => fail_about(owned("unexpected token after second register"), x),
                        },
                    },
                    Some(x) => fail_about(owned("expected a regsiter, got"), x),
                    None => Parsed::Fail(name_then(ins, " expects two registers")),
                },
                Some(x) => fail_about(owned("expected ',' after first register, got"), x),
                None => Parsed::Fail(name_then(ins, " expects two registers")),
            },
        },
        Some(x) => fail_about(name_then(ins, " expects two registers, got"), x),
        None => Parsed::Fail(name_then(ins, " expects two registers")),
    }
}

fn exec_two_tail(
    ins: Instruction,
    t: &Vec<Token>,
    p: usize,
    a: Register,
    b: Register,
    warnings: &mut Vec<String>,
) -> (r: Parsed)
    requires
        p <= t@.len(),
    ensures
        produced(r@, ops_two_tail(ins, crate::lexer::tokens_view(t@), p as int, a@, b@), old(warnings)@, final(warnings)@),
{
    proof {
        assert(strings_view(warnings@) =~= strings_view(warnings@) + Seq::<Seq<char>>::empty());
    }
    match tok_after(t, p, 0) {
        None => instruction(ins, Parameters::TwoRegisters(a, b)),
        Some(Token::Comma) => match tok_after(t, p, 1) {
            Some(Token::Immediate(im)) => exec_last_imm8(ins, t, p, 2, im, a, Some(b), warnings),
            Some(x) => fail_about(owned("expected an immediate, got"), x),
            None => Parsed::Fail(name_then(ins, " expects two registers and an immediate")),
        },
        Some(x) => fail_about(owned("expected ',' after second register, got"), x),
    }
}

fn exec_two_or_imm(ins: Instruction, t: &Vec<Token>, p: usize, warnings: &mut Vec<String>) -> (r: Parsed)
    requires
        p <= t@.len(),
    ensures
        produced(r@, ops_two_or_imm(ins, crate::lexer::tokens_view(t@), p as int), old(warnings)@, final(warnings)@),
{
    proof {
        assert(strings_view(warnings@) =~= strings_view(warnings@) + Seq::<Seq<char>>::empty());
    }
    match tok_after(t, p, 0) {
        Some(Token::Register(r)) => match make_register(r) {
            Err(m) => Parsed::Fail(m),
            Ok(a) => match tok_after(t, p, 1) {
                Some(Token::Comma) => match tok_after(t, p, 2) {
                    Some(Token::Register(r2)) => match make_register(r2) {
                        Err(m) => Parsed::Fail(m),
                        Ok(b) => {
                            if t.len() - p >= 3 {
                                exec_two_tail(ins, t, p + 3, a, b, warnings)
                            } else {
                                exec_two_tail(ins, t, t.len(), a, b, warnings)
                            }
                        },
                    },
                    Some(Token::Immediate(im)) => match tok_after(t, p, 3) {
                        None => {
                            let lit = read_literal(im, false, warnings);
                            let r = match lit {
                                Err(m) => Parsed::Fail(m),
                                Ok(v) => instruction(ins, Parameters::OneRegisterImmediate(a, v as u8)),
                            };
                            assert(strings_view(warnings@) =~= strings_view(old(warnings)@) + (opt_seq(literal(im@, false).warning) + Seq::<Seq<char>>::empty()));
                            r
                        },
                        Some(x) => fail_about(owned("unexpected token after immediate"), x),
                    },
                    Some(x) => fail_about(owned("expected a regsiter or an immediate, got"), x),
                    None => Parsed::Fail(name_then(ins, " expects as least two parameters")),
                },
                Some(x) => fail_about(owned("expected ',' after first register, got"), x),
                None => Parsed::Fail(name_then(ins, " expects two registers")),
            },
        },
        Some(x) => fail_about(name_then(ins, " expects at least two parameters, got"), x),
        None => Parsed::Fail(name_then(ins, " expects at least two parameters")),
    }
}

fn exec_two_or_long(ins: Instruction, t: &Vec<Token>, p: usize, warnings: &mut Vec<String>) -> (r: Parsed)
    requires
        p <= t@.len(),
    ensures
        produced(r@, ops_two_or_long(ins, crate::lexer::tokens_view(t@), p as int), old(warnings)@, final(warnings)@),
{
    proof {
        assert(strings_view(warnings@) =~= strings_view(warnings@) + Seq::<Seq<char>>::empty());
    }
    match tok_after(t, p, 0) {
        Some(Token::Immediate(im)) => match tok_after(t, p, 1) {
            None => {
                let lit = read_literal(im, true, warnings);
                let r = match lit {
                    Err(m) => Parsed::Fail(m),
                    Ok(v) => instruction(ins, Parameters::LongImmediate(v)),
                };
                assert(strings_view(warnings@) =~= strings_view(old(warnings)@) + (opt_seq(literal(im@, true).warning) + Seq::<Seq<char>>::empty()));
                r
            },
            Some(x) => fail_about(owned("unexpected token after immediate"), x),
        },
        Some(Token::Ident(l)) => match tok_after(t, p, 1) {
            None => instruction(ins, Parameters::Label(l.clone())),
            Some(x) => fail_about(owned("unexpected token after label"), x),
        },
        _ => exec_two(ins, t, p, warnings),
    }
}

/// Parses the operands of `ins` from token `p` on.
pub fn parse_operands(ins: Instruction, t: &Vec<Token>, p: usize, warnings: &mut Vec<String>) -> (r: Parsed)
    requires
        p <= t@.len(),
    ensures
        produced(r@, operands(ins, crate::lexer::tokens_view(t@), p as int), old(warnings)@, final(warnings)@),
{
    match ins.assemble_info().1 {
        OperandMode::NoParams => exec_none(ins, t, p, warnings),
        OperandMode::OneRegister => exec_one(ins, t, p, warnings),
        OperandMode::OneOrTwoRegisters => exec_one_or_two(ins, t, p, warnings),
        OperandMode::OneRegisterAndImmediate => exec_one_imm(ins, t, p, warnings),
        OperandMode::TwoRegisters => exec_two(ins, t, p, warnings),
        OperandMode::TwoRegistersOrImmediate => exec_two_or_imm(ins, t, p, warnings),
        OperandMode::TwoRegistersOrLongImmediate => exec_two_or_long(ins, t, p, warnings),
    }
}

fn str_is(s: &String, lit: &str) -> (r: bool)
    ensures
        r == (s@ == lit@),
{
    let a = chars_of(s.as_str());
    let b = chars_of(lit);
    crate::instruction::chars_equal(&a, &b)
}

/// The items of a `.db` directive, from token `start` on.
fn exec_data(t: &Vec<Token>, start: usize, warnings: &mut Vec<String>) -> (r: Parsed)
    requires
        start <= t@.len(),
    ensures
        produced(r@, data_items(crate::lexer::tokens_view(t@), start as int, seq![]), old(warnings)@, final(warnings)@),
{
    let ghost tv = crate::lexer::tokens_view(t@);
    let ghost w0 = strings_view(warnings@);
    let ghost mut added: Seq<Seq<char>> = seq![];
    let mut items: Vec<DataByte> = Vec::new();
    let mut p = start;
    proof {
        assert(data_view(items@) =~= Seq::<DataByteView>::empty());
        assert(strings_view(warnings@) =~= w0 + added);
        let o = data_items(tv, p as int, data_view(items@));
        assert(o.warnings =~= added + o.warnings);
    }
    while p < t.len()
        invariant
            tv == crate::lexer::tokens_view(t@),
            start <= p <= t@.len(),
            strings_view(warnings@) == w0 + added,
            w0 == strings_view(old(warnings)@),
            data_items(tv, start as int, seq![]) == (Outcome {
                warnings: added + data_items(tv, p as int, data_view(items@)).warnings,
                end: data_items(tv, p as int, data_view(items@)).end,
            }),
        decreases t@.len() - p,
    {
        assert(tv[p as int] == t@[p as int]@);
        match &t[p] {
            Token::Immediate(im) => {
                let lit = read_literal(im, false, warnings);
                match lit {
                    Err(m) => {
                        assert(strings_view(warnings@) =~= w0 + (added + (opt_seq(literal(im@, false).warning) + Seq::<Seq<char>>::empty())));
                        return Parsed::Fail(m);
                    },
                    Ok(v) => {
                        let ghost prev = data_view(items@);
                        items.push(DataByte::Byte(v as u8));
                        proof {
                            assert(data_view(items@) =~= prev.push(DataByteView::Byte(v as u8)));
                            let o = data_items(tv, p + 1, data_view(items@));
                            assert(added + (opt_seq(literal(im@, false).warning) + o.warnings) =~= (added + opt_seq(literal(im@, false).warning)) + o.warnings);
                            added = added + opt_seq(literal(im@, false).warning);
                            assert(strings_view(warnings@) =~= w0 + added);
                        }
                    },
                }
            },
            Token::Ident(l) => {
                let ghost prev = data_view(items@);
                items.push(DataByte::Label(l.clone()));
                assert(data_view(items@) =~= prev.push(DataByteView::Label(l@)));
            },
            Token::String(text) => {
                let ghost prev = data_view(items@);
                let bytes = text.as_str().as_bytes();
                let mut k: usize = 0;
                while k < bytes.len()
                    invariant
                        k <= bytes@.len(),
                        bytes@ == encode_utf8(text@),
                        data_view(items@) == prev + bytes@.take(k as int).map_values(|b: u8| DataByteView::Byte(b)),
                    decreases bytes@.len() - k,
                {
                    let ghost mid = data_view(items@);
                    items.push(DataByte::Byte(bytes[k]));
                    assert(data_view(items@) =~= mid.push(DataByteView::Byte(bytes@[k as int])));
                    assert(bytes@.take(k + 1).map_values(|b: u8| DataByteView::Byte(b)) =~= bytes@.take(k as int).map_values(|b: u8| DataByteView::Byte(b)).push(DataByteView::Byte(bytes@[k as int])));
                    assert(data_view(items@) =~= prev + bytes@.take(k + 1).map_values(|b: u8| DataByteView::Byte(b)));
                    k = k + 1;
                }
                assert(bytes@.take(bytes@.len() as int) =~= bytes@);
                assert(data_view(items@) =~= prev + string_data(text@));
            },
            x => {
                assert(strings_view(warnings@) =~= w0 + (added + Seq::<Seq<char>>::empty()));
                return fail_about(owned("unexpected token in db field"), x);
            },
        }
        p = p + 1;
    }
    assert(strings_view(warnings@) =~= w0 + (added + Seq::<Seq<char>>::empty()));
    if items.len() == 0 {
        Parsed::Note(owned("empty db field"))
    } else {
        Parsed::Data(LineData::Directive(Directive::DB(items)))
    }
}

/// The directive named `d`, with its arguments from token `p` on.
fn exec_directive(d: &String, t: &Vec<Token>, p: usize, warnings: &mut Vec<String>) -> (r: Parsed)
    requires
        p <= t@.len(),
    ensures
        produced(r@, directive(d@, crate::lexer::tokens_view(t@), p as int), old(warnings)@, final(warnings)@),
{
    proof {
        assert(strings_view(warnings@) =~= strings_view(warnings@) + Seq::<Seq<char>>::empty());
    }
    if str_is(d, "include") {
        match tok_after(t, p, 0) {
            Some(Token::String(path)) => Parsed::Include(path.clone()),
            Some(x) => fail_about(owned("expected a string file path, got"), x),
            None => Parsed::Fail(owned("expected a string file path")),
        }
    } else if str_is(d, "line") {
        match tok_after(t, p, 0) {
            Some(Token::Immediate(im)) => match tok_after(t, p, 1) {
                None => {
                    let lit = read_literal(im, true, warnings);
                    let r = match lit {
                        Err(m) => Parsed::Fail(m),
                        Ok(v) => Parsed::Data(LineData::Directive(Directive::Line(v))),
                    };
                    assert(strings_view(warnings@) =~= strings_view(old(warnings)@) + (opt_seq(literal(im@, true).warning) + Seq::<Seq<char>>::empty()));
                    r
                },
                Some(x) => fail_about(owned("unexpected token after line offset"), x),
            },
            Some(x) => fail_about(owned("expected an immediate for line offset, got"), x),
            None => Parsed::Fail(owned("expected an immediate for line offset")),
        }
    } else if str_is(d, "db") {
        exec_data(t, p, warnings)
    } else {
        Parsed::Fail(owned("unknown directive: ").concat(d.as_str()))
    }
}

/// A line after its label, from token `p` on.
fn exec_statement(t: &Vec<Token>, p: usize, warnings: &mut Vec<String>) -> (r: Parsed)
    requires
        p <= t@.len(),
    ensures
        produced(r@, statement(crate::lexer::tokens_view(t@), p as int), old(warnings)@, final(warnings)@),
{
    let _n = t.len();
    proof {
        assert(strings_view(warnings@) =~= strings_view(warnings@) + Seq::<Seq<char>>::empty());
    }
    match tok_after(t, p, 0) {
        Some(Token::Directive(d)) => exec_directive(d, t, p + 1, warnings),
        Some(Token::Ident(name)) => {
            let chars = chars_of(name.as_str());
            match Instruction::from_name(&chars) {
                Some(ins) => parse_operands(ins, t, p + 1, warnings),
                None => Parsed::Fail(owned("unknown instruction: ").concat(name.as_str())),
            }
        },
        Some(x) => fail_about(owned("unexpected token"), x),
        None => Parsed::Nothing,
    }
}

/// Parses a line of tokens: the label it declares, if any, and how the rest
/// of it ends; truncation warnings are pushed onto `warnings`.
pub fn parse_tokens(t: &Vec<Token>, warnings: &mut Vec<String>) -> (r: (Option<String>, Parsed))
    ensures
        r.0 matches Some(l) ==> line_label(crate::lexer::tokens_view(t@)) == Some(l@),
        r.0 is None ==> line_label(crate::lexer::tokens_view(t@)) is None,
        produced(r.1@, line_outcome(crate::lexer::tokens_view(t@)), old(warnings)@, final(warnings)@),
{
    match tok_after(t, 0, 0) {
        Some(Token::Label(l)) => (Some(l.clone()), exec_statement(t, 1, warnings)),
        _ => (None, exec_statement(t, 0, warnings)),
    }
}

} // verus!
