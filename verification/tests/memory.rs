use gameboy_display::memory::{disassembly_text, memory_dump_text, ADDRESS_SPACE_SIZE};
use gameboy_display::opcodes::{opcode_length, opcode_name};

fn snapshot() -> Vec<u8> {
    (0..ADDRESS_SPACE_SIZE).map(|a| (a % 256) as u8).collect()
}

#[test]
fn memory_dump_shows_sixteen_bytes() {
    let mem = snapshot();
    assert_eq!(
        memory_dump_text(0xc010, &mem),
        "0xc010:  10 11 12 13 14 15 16 17 18 19 1a 1b 1c 1d 1e 1f\n"
    );
    assert_eq!(
        memory_dump_text(0xffef, &mem),
        "0xffef:  ef f0 f1 f2 f3 f4 f5 f6 f7 f8 f9 fa fb fc fd fe\n"
    );
}

#[test]
fn memory_dump_stops_at_the_end_of_memory() {
    let mem = snapshot();
    assert_eq!(
        memory_dump_text(0xfff0, &mem),
        "0xfff0:  f0 f1 f2 f3 f4 f5 f6 f7 f8 f9 fa fb fc fd fe ff\n"
    );
    assert_eq!(memory_dump_text(0xfffd, &mem), "0xfffd:  fd fe ff\n");
    assert_eq!(memory_dump_text(0xffff, &mem), "0xffff:  ff\n");
}

#[test]
fn disassembly_of_five_instructions() {
    let mut mem = vec![0u8; ADDRESS_SPACE_SIZE];
    mem[0x100] = 0x00;
    mem[0x101] = 0xc3;
    mem[0x102] = 0x50;
    mem[0x103] = 0x01;
    mem[0x104] = 0x3e;
    mem[0x105] = 0x2a;
    mem[0x106] = 0xcb;
    mem[0x107] = 0x7c;
    mem[0x108] = 0xe2;
    mem[0x109] = 0xc6;
    let text = disassembly_text(0x100, &mem);
    assert_eq!(
        text,
        "0x0100 | NOP |  00\n\
         0x0101 | JP u16 |  c3 50 01\n\
         0x0104 | LD A, u8 |  3e 2a\n\
         0x0106 | PREFIX CB |  cb 7c\n\
         0x0108 | LD (C), A |  e2\n"
    );
    let text = disassembly_text(0x109, &mem);
    assert!(text.starts_with("0x0109 | ADD A, u8 |  c6 00\n0x010b | NOP |  00\n"));
    mem[0x200] = 0xf2;
    assert!(disassembly_text(0x200, &mem).starts_with("0x0200 | LD A, (C) |  f2\n0x0201 | NOP"));
}

#[test]
fn disassembly_wraps_around_the_end_of_memory() {
    let mut mem = vec![0u8; ADDRESS_SPACE_SIZE];
    mem[0xfffe] = 0xc3;
    mem[0xffff] = 0x34;
    mem[0x0000] = 0x12;
    mem[0x0001] = 0x3e;
    mem[0x0002] = 0x99;
    let text = disassembly_text(0xfffe, &mem);
    assert_eq!(
        text,
        "0xfffe | JP u16 |  c3 34 12\n\
         0x0001 | LD A, u8 |  3e 99\n\
         0x0003 | NOP |  00\n\
         0x0004 | NOP |  00\n\
         0x0005 | NOP |  00\n"
    );
    let text = disassembly_text(0xfffb, &vec![0u8; ADDRESS_SPACE_SIZE]);
    assert_eq!(
        text,
        "0xfffb | NOP |  00\n0xfffc | NOP |  00\n0xfffd | NOP |  00\n0xfffe | NOP |  00\n0xffff | NOP |  00\n"
    );
}

#[test]
fn opcode_tables() {
    assert_eq!(opcode_name(0x00), "NOP");
    assert_eq!(opcode_length(0x00), 1);
    assert_eq!(opcode_name(0x01), "LD BC, u16");
    assert_eq!(opcode_length(0x01), 3);
    assert_eq!(opcode_name(0xcb), "PREFIX CB");
    assert_eq!(opcode_length(0xcb), 2);
    assert_eq!(opcode_name(0xc6), "ADD A, u8");
    assert_eq!(opcode_name(0xe6), "AND u8");
    assert_eq!(opcode_length(0xe2), 1);
    assert_eq!(opcode_length(0xf2), 1);
    assert_eq!(opcode_name(0xd3), "INVALID");
    assert_eq!(opcode_name(0xff), "RST 38");
    assert_eq!(opcode_length(0xff), 1);
    assert_eq!(opcode_length(0xe0), 2);
    for op in 0..=255u8 {
        assert!((1..=3).contains(&opcode_length(op)));
    }
}
