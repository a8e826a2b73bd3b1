use x69_assembler::assemble;

fn assemble_string(source: &str) -> Vec<u8> {
    let (assembly, logs) = assemble(source);
    for log in &logs {
        println!("{:?}", log);
    }
    assembly
}

#[test]
fn simple_add() {
    let buffer = assemble_string("add r15, r0, 0b10101");
    assert_eq!(buffer[0], 0b10100101);
    assert_eq!(buffer[1], 0xF0);
    assert_eq!(buffer[2], 0b10101);

    let buffer = assemble_string("ADD r1, 0xDEAD");
    assert_eq!(buffer[0], 0b10100101);
    assert_eq!(buffer[1], 0x11);
    // Checking that the hex literal was properly truncated
    assert_eq!(buffer[2], 0xAD);

    let buffer = assemble_string("AdD r1, r2");
    assert_eq!(buffer[0], 0b00100101);
    assert_eq!(buffer[1], 0x12);
}

#[test]
fn nop() {
    let buffer = assemble_string("nop");
    assert_eq!(buffer[0], 0b00101001);
    assert_eq!(buffer[1], 0x00);
}

#[test]
fn lpc() {
    let buffer = assemble_string("lpc r15, r0");
    assert_eq!(buffer[0], 0b01001000);
    assert_eq!(buffer[1], 0x0F);
}

#[test]
fn jmp() {
    let buffer = assemble_string("jmp r0, r15");
    assert_eq!(buffer[0], 0b01000100);
    assert_eq!(buffer[1], 0xF0);

    let buffer = assemble_string("rjmp 6969");
    assert_eq!(buffer[0], 0b11000110);
    assert_eq!(buffer[1], (6969 & 0xFF) as u8);
    assert_eq!(buffer[2], (6969 >> 8) as u8);
}

#[test]
fn label() {
    let labels = assemble_string("
            set r0, 1
            mov r1, r0
        _loop:
            add r1, r0
            add r0, r1
            jmp _loop
        ");
    let basic = assemble_string("
            set r0, 1
            mov r1, r0
            add r1, r0
            add r0, r1
            jmp 5
        ");

    // Both codes should output identical binaries
    assert_eq!(basic, labels);

    let halt = assemble_string("halt: jmp halt");
    assert_eq!(halt[0], 0b11000100);
    assert_eq!(halt[1], 0);
    assert_eq!(halt[2], 0);
}

#[test]
fn db() {
    let bytes = assemble_string("array: .db 0 1 array \"hello\" 3 4");
    assert_eq!(bytes, vec![0, 1, 0, 0, b'h', b'e', b'l', b'l', b'o', 3, 4]);
}

#[test]
fn line_offset() {
    let buffer = assemble_string("
            add r1, r2
            .line 0x1234
        _halt:
            jmp _halt");

    assert_eq!(buffer.len(), 0x1237);
    assert_eq!(buffer[0x1235], 0x34);
    assert_eq!(buffer[0x1236], 0x12);
}

#[test]
fn ldr_sdr() {
    let buffer = assemble_string("ldr r0, 15");
    assert_eq!(buffer[0], 0b10010000);
    assert_eq!(buffer[1], 0);
    assert_eq!(buffer[2], 15);

    let buffer = assemble_string("str r0, 150");
    assert_eq!(buffer[0], 0b10010001);
    assert_eq!(buffer[1], 0);
    assert_eq!(buffer[2], 150);
}
