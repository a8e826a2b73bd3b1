use x69_assembler::{
    assemble, assemble_lines, include_paths, parse_raw, tokenize, Instruction, Line, LineData, Log,
    OperandMode, ParseOptions, Register, RegisterMap, Token,
};

fn errors(logs: &[Log]) -> Vec<String> {
    logs.iter()
        .filter_map(|l| match l {
            Log::Error(_, m, _) => Some(m.clone()),
            _ => None,
        })
        .collect()
}

fn warnings(logs: &[Log]) -> Vec<String> {
    logs.iter()
        .filter_map(|l| match l {
            Log::Warning(_, m, _) => Some(m.clone()),
            _ => None,
        })
        .collect()
}

#[test]
fn nop_is_two_bytes() {
    let (bytes, logs) = assemble("nop");
    assert_eq!(bytes, vec![0b00101001, 0x00]);
    assert!(logs.is_empty());
}

#[test]
fn add_three_operands() {
    let (bytes, logs) = assemble("add r15, r0, 123");
    assert_eq!(bytes, vec![0b10100101, 0xF0, 123]);
    assert!(logs.is_empty());
}

#[test]
fn hex_literal_is_truncated_with_warning() {
    let (bytes, logs) = assemble("add r1, 0xDEAD");
    assert_eq!(bytes, vec![0b10100101, 0x11, 0xAD]);
    assert_eq!(
        warnings(&logs),
        vec!["immediate 0xDEAD will be truncated to an 8-bit value".to_string()]
    );
    assert!(errors(&logs).is_empty());
}

#[test]
fn wide_binary_literal_is_truncated() {
    let (bytes, logs) = assemble("jmp 0b11111111111111110");
    assert_eq!(bytes, vec![0b11000100, 0xFE, 0xFF]);
    assert_eq!(
        warnings(&logs),
        vec!["immediate 0b11111111111111110 will be truncated to a 16-bit value".to_string()]
    );
}

#[test]
fn backward_label_matches_numeric_offset() {
    let (labels, l1) = assemble("nop\n_loop:\nadd r1, r0\njmp _loop");
    let (numbers, l2) = assemble("nop\nadd r1, r0\njmp 2");
    assert_eq!(labels, numbers);
    assert!(l1.is_empty() && l2.is_empty());
}

#[test]
fn line_directive_pads_and_label_follows() {
    let (bytes, logs) = assemble(".line 0x1234\nend:\njmp end");
    assert_eq!(bytes.len(), 0x1237);
    assert!(bytes[..0x1234].iter().all(|b| *b == 0));
    assert_eq!(bytes[0x1234], 0b11000100);
    assert_eq!(bytes[0x1235], 0x34);
    assert_eq!(bytes[0x1236], 0x12);
    assert!(logs.is_empty());
}

#[test]
fn db_forward_label_is_resolved() {
    let (bytes, logs) = assemble(".db 0 1 array \"hi\"\narray: nop");
    assert_eq!(bytes, vec![0, 1, 6, 0, b'h', b'i', 0b00101001, 0]);
    assert!(logs.is_empty());
}

#[test]
fn db_undeclared_label_is_one_error() {
    let (bytes, logs) = assemble(".db 0 1 array \"hi\"");
    assert_eq!(bytes, vec![0, 1, 0xDE, 0xAD, b'h', b'i']);
    assert_eq!(errors(&logs), vec!["unresolved symbol: array".to_string()]);
    assert_eq!(logs.len(), 1);
}

#[test]
fn assembling_twice_is_identical() {
    let source = "start: set r1, 0x1FF\n.db start \"x\"\njmp missing\n.line 3";
    let (b1, l1) = assemble(source);
    let (b2, l2) = assemble(source);
    assert_eq!(b1, b2);
    assert_eq!(format!("{:?}", l1), format!("{:?}", l2));
}

#[test]
fn register_byte_round_trip() {
    // BA mapping: the first operand goes to the high nibble.
    let (bytes, _) = assemble("sub r3, r12");
    assert_eq!(bytes, vec![0b00100110, 0x3C]);
    assert_eq!((bytes[1] >> 4, bytes[1] & 0x0F), (3, 12));
    // AB mapping: the first operand goes to the low nibble.
    let (bytes, _) = assemble("cmp r3, r12");
    assert_eq!(bytes, vec![0b00101010, 0xC3]);
    assert_eq!((bytes[1] & 0x0F, bytes[1] >> 4), (3, 12));
    // AA mapping: the one register in both nibbles.
    let (bytes, _) = assemble("clr r7");
    assert_eq!(bytes, vec![0b00100000, 0x77]);
    // One register for two: INC r5 is INC r5, r5.
    let (bytes, _) = assemble("inc r5");
    assert_eq!(bytes, vec![0b00100111, 0x55]);
}

#[test]
fn unknown_instruction_is_an_error() {
    let (bytes, logs) = assemble("frob r1");
    assert!(bytes.is_empty());
    assert_eq!(errors(&logs), vec!["unknown instruction: frob".to_string()]);
    match &logs[0] {
        Log::Error(line, _, origin) => {
            assert_eq!(*line, 0);
            assert_eq!(origin, "[unknown]");
        }
        _ => panic!("expected an error"),
    }
}

#[test]
fn register_out_of_range_is_an_error() {
    let (bytes, logs) = assemble("nop\nclr r16");
    assert_eq!(bytes, vec![0b00101001, 0]);
    assert_eq!(errors(&logs), vec!["register out of bounds: 16".to_string()]);
    match &logs[0] {
        Log::Error(line, _, _) => assert_eq!(*line, 1),
        _ => panic!("expected an error"),
    }
}

#[test]
fn decimal_overflow_is_an_error() {
    let (bytes, logs) = assemble("set r1, 256");
    assert!(bytes.is_empty());
    assert_eq!(
        errors(&logs),
        vec!["could not parse 256: number too large to fit in target type".to_string()]
    );
}

#[test]
fn largest_decimal_values_fit() {
    let (bytes, logs) = assemble("set r1, 255\njmp 65535");
    assert_eq!(bytes, vec![0b10101001, 0x11, 255, 0b11000100, 0xFF, 0xFF]);
    assert!(logs.is_empty());
}

#[test]
fn duplicate_label_is_an_error_and_last_wins() {
    let (bytes, logs) = assemble("a:\nnop\na:\njmp a");
    assert_eq!(bytes, vec![0b00101001, 0, 0b11000100, 2, 0]);
    assert_eq!(errors(&logs), vec!["symbol a declared multiple times".to_string()]);
}

#[test]
fn backward_line_offset_is_an_error() {
    let (bytes, logs) = assemble("nop\nnop\n.line 1");
    assert_eq!(bytes.len(), 4);
    assert_eq!(
        errors(&logs),
        vec!["line offset is less than current offset: 4".to_string()]
    );
}

#[test]
fn odd_padding_warns() {
    let (bytes, logs) = assemble(".line 3");
    assert_eq!(bytes, vec![0, 0, 0]);
    assert_eq!(
        warnings(&logs),
        vec!["line offset will not guarantee instruction alignment".to_string()]
    );
}

#[test]
fn empty_db_warns() {
    let (bytes, logs) = assemble(".db");
    assert!(bytes.is_empty());
    assert_eq!(warnings(&logs), vec!["empty db field".to_string()]);
}

#[test]
fn unknown_directive_is_an_error() {
    let (_, logs) = assemble(".org 4");
    assert_eq!(errors(&logs), vec!["unknown directive: org".to_string()]);
}

#[test]
fn wrong_token_names_mnemonic_and_token() {
    let (_, logs) = assemble("nop r1");
    assert_eq!(
        errors(&logs),
        vec!["NOP expects zero parameters, got: Register(\"1\")".to_string()]
    );
    let (_, logs) = assemble("cmp r1 r2");
    assert_eq!(
        errors(&logs),
        vec!["expected ',' after first register, got: Register(\"2\")".to_string()]
    );
}

#[test]
fn comments_and_upper_case_registers() {
    let (bytes, logs) = assemble("ADD R1, R2 // comment\n// only a comment");
    assert_eq!(bytes, vec![0b00100101, 0x12]);
    assert!(logs.is_empty());
}

#[test]
fn tokens_of_a_line() {
    let t = tokenize("lbl: add r1, 0x1F \"s\" .db");
    assert_eq!(t.len(), 7);
    assert!(matches!(&t[0], Token::Label(s) if s == "lbl"));
    assert!(matches!(&t[1], Token::Ident(s) if s == "add"));
    assert!(matches!(&t[2], Token::Register(s) if s == "1"));
    assert!(matches!(&t[3], Token::Comma));
    assert!(matches!(&t[4], Token::Immediate(s) if s == "0x1F"));
    assert!(matches!(&t[5], Token::String(s) if s == "s"));
    assert!(matches!(&t[6], Token::Directive(s) if s == "db"));
}

#[test]
fn includes_are_spliced_in_order() {
    let source = "nop\n.include \"a.s\"\n.include \"b.s\"\njmp there";
    assert_eq!(include_paths(source), vec!["a.s".to_string(), "b.s".to_string()]);
    let a = parse_raw("there:", Some(&ParseOptions { origin: "a.s".to_string(), include_paths: vec![] }), vec![]);
    let b = parse_raw("clr r1", Some(&ParseOptions { origin: "b.s".to_string(), include_paths: vec![] }), vec![]);
    let opts = ParseOptions { origin: "main.s".to_string(), include_paths: vec![] };
    let (lines, mut logs) = parse_raw(source, Some(&opts), vec![a, b]);
    assert_eq!(lines.len(), 4);
    assert_eq!(lines[1].origin, "a.s");
    assert!(matches!(&lines[1].data, LineData::Label(l) if l == "there"));
    let bytes = assemble_lines(&lines, &mut logs);
    assert_eq!(bytes, vec![0b00101001, 0, 0b00100000, 0x11, 0b11000100, 2, 0]);
    assert!(logs.is_empty());
}

#[test]
fn registers_and_errors() {
    assert_eq!(Register::from_u8(15).map(|r| r.value()), Some(15));
    assert!(Register::from_u8(16).is_none());
    assert!(Log::Error(0, String::new(), String::new()).is_error());
    assert!(Log::IOError(String::new(), String::new()).is_error());
    assert!(!Log::Warning(0, String::new(), String::new()).is_error());
}

#[test]
fn instruction_table_entries() {
    let (op, mode, map) = Instruction::JMPNC.assemble_info();
    assert_eq!(op, 0b01100100);
    assert_eq!(mode, OperandMode::TwoRegistersOrLongImmediate);
    assert_eq!(map, RegisterMap::AB);
    assert_eq!(Instruction::RCALLZ.assemble_info().0, 0b01110011);
    assert_eq!(Instruction::SADR.assemble_info().0, 0b01001111);
    assert_eq!(Instruction::RCALLNC.to_str(), "RCALLNC");
    let name: Vec<char> = "rJmPnZ".chars().collect();
    assert_eq!(Instruction::from_name(&name), Some(Instruction::RJMPNZ));
    let name: Vec<char> = "str".chars().collect();
    assert_eq!(Instruction::from_name(&name), Some(Instruction::SDR));
    let name: Vec<char> = "nope".chars().collect();
    assert_eq!(Instruction::from_name(&name), None);
}

#[test]
fn line_numbers_are_kept() {
    let (lines, _) = parse_raw("\n\nx: nop", None, vec![]);
    let lines: Vec<Line> = lines;
    assert_eq!(lines.len(), 2);
    assert_eq!(lines[0].line, 2);
    assert_eq!(lines[1].line, 2);
}

#[test]
fn diagnostics_as_text() {
    assert_eq!(
        Log::Warning(0, "w".to_string(), "a.s".to_string()).text(),
        "WARNING: a.s:1: w"
    );
    assert_eq!(
        Log::Error(41, "e".to_string(), "b.s".to_string()).text(),
        "ERROR:   b.s:42: e"
    );
    assert_eq!(
        Log::IOError("gone".to_string(), "c.s".to_string()).text(),
        "ERROR:   c.s: gone"
    );
}
