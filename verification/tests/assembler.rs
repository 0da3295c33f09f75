use jazz80::assembler::lexer::{tokenize, tokenize_classified, CharClass};
use jazz80::assembler::parser::parse_operands;
use jazz80::assembler::{assemble_binary, assemble_with_metadata, Operand, SymbolType, Token};

fn assemble(code: &str) -> Vec<u8> {
    assemble_with_metadata(code)
        .map(|result| result.bytes)
        .unwrap_or_else(|e| panic!("Failed to assemble '{}': {}", code, e))
}

fn assemble_err(code: &str) -> String {
    match assemble_with_metadata(code) {
        Ok(_) => panic!("'{}' assembled", code),
        Err(e) => e,
    }
}

#[test]
fn test_ds_basic() {
    let code = "
            ORG 0x100
            DS 5
            DEFS 2, 0xAA
        ";
    let bytes = assemble_with_metadata(code).unwrap().bytes;

    let total_len = 0x100 + 5 + 2;
    assert_eq!(bytes.len(), total_len);
    assert_eq!(&bytes[0x100..0x100 + 5], &[0, 0, 0, 0, 0]);
    assert_eq!(&bytes[0x100 + 5..], &[0xAA, 0xAA]);
}

#[test]
fn test_address_space_overflow_is_an_error() {
    assert!(assemble_with_metadata("ORG 0xFFFF\nDB 1\nDB 2").is_err());
}

#[test]
fn test_block_instructions() {
    let code = "
            LDI
            LDIR
            LDD
            LDDR
            CPI
            CPIR
            CPD
            CPDR
            INI
            INIR
            IND
            INDR
            OUTI
            OTIR
            OUTD
            OTDR
        ";
    let bytes = assemble_with_metadata(code).unwrap().bytes;

    let expected = vec![
        0xED, 0xA0, 0xED, 0xB0, 0xED, 0xA8, 0xED, 0xB8, 0xED, 0xA1, 0xED, 0xB1, 0xED, 0xA9, 0xED,
        0xB9, 0xED, 0xA2, 0xED, 0xB2, 0xED, 0xAA, 0xED, 0xBA, 0xED, 0xA3, 0xED, 0xB3, 0xED, 0xAB,
        0xED, 0xBB,
    ];

    assert_eq!(bytes, expected);
}

#[test]
fn test_org_simple() {
    let code = "
        ORG 0x0005
        DB 0xAA
    ";
    let res = assemble(code);
    assert_eq!(res.len(), 6);
    assert_eq!(res[0..5], [0, 0, 0, 0, 0]);
    assert_eq!(res[5], 0xAA);
}

#[test]
fn test_variables_scenario() {
    let code = "
        ORG 0x0000
        JP START
    N:  DB 10
    RESULT: DW 0
    START:
        LD A, (N)
        HALT
    ";
    let res = assemble(code);
    assert_eq!(
        res,
        vec![0xC3, 0x06, 0x00, 0x0A, 0x00, 0x00, 0x3A, 0x03, 0x00, 0x76]
    );
}

#[test]
fn test_db_multiple() {
    let code = "DB 1, 2, 3";
    let res = assemble(code);
    assert_eq!(res, vec![1, 2, 3]);
}

#[test]
fn test_db_string() {
    let code = "DB \"Hello\"";
    let res = assemble(code);
    assert_eq!(res, vec![72, 101, 108, 108, 111]);
}

#[test]
fn test_dw_basic() {
    let code = "DW 0x1234, 0x5678";
    let res = assemble(code);
    assert_eq!(res, vec![0x34, 0x12, 0x78, 0x56]);
}

#[test]
fn test_label_forward_ref_in_db() {
    let code = "
        DB END
        END: NOP
    ";
    let res = assemble(code);
    assert_eq!(res, vec![0x01, 0x00]);
}

#[test]
fn test_org_gap() {
    let code = "
        EXX
        ORG 0x0004
        EXX
    ";
    let res = assemble(code);
    assert_eq!(res, vec![0xD9, 0x00, 0x00, 0x00, 0xD9]);
}

#[test]
fn test_equ_constants() {
    let code = "
        TERM_DATA EQU 80h
        TERM_STATUS EQU 81h
        LD A, 2Ah
        OUT (TERM_DATA), A
        IN A, (TERM_STATUS)
        JP DONE
    DONE:
        RET
    ";
    let result = assemble_with_metadata(code).unwrap();

    assert_eq!(
        result.bytes,
        vec![0x3E, 0x2A, 0xD3, 0x80, 0xDB, 0x81, 0xC3, 0x09, 0x00, 0xC9]
    );
    assert_eq!(result.symbol("TERM_DATA").unwrap().address, 0x80);
    assert_eq!(result.symbol("TERM_STATUS").unwrap().address, 0x81);
}

// ----- further cases -----

#[test]
fn relative_jumps_count_from_the_next_instruction() {
    assert_eq!(assemble("LOOP: DJNZ LOOP"), vec![0x10, 0xFE]);
    assert_eq!(assemble("JR NEXT\nNEXT: NOP"), vec![0x18, 0x00, 0x00]);
    assert_eq!(assemble("BACK: NOP\nJR NZ, BACK"), vec![0x00, 0x20, 0xFD]);
    assert_eq!(assemble("JR C, 0"), vec![0x38, 0xFE]);
}

#[test]
fn relative_jump_out_of_range_is_an_error() {
    assert_eq!(assemble_err("JR 200"), "Line 1: JR offset out of range");
    assert_eq!(assemble_err("DJNZ 0x1000"), "Line 1: DJNZ offset out of range");
    assert_eq!(assemble_err("JR PE, 0"), "Line 1: Invalid JR condition");
}

#[test]
fn load_forms_encode() {
    assert_eq!(assemble("LD B, C"), vec![0x41]);
    assert_eq!(assemble("LD HL, 0x1234"), vec![0x21, 0x34, 0x12]);
    assert_eq!(assemble("LD IX, 0x1234"), vec![0xDD, 0x21, 0x34, 0x12]);
    assert_eq!(assemble("LD (HL), 5"), vec![0x36, 0x05]);
    assert_eq!(assemble("LD A, (IX+5)"), vec![0xDD, 0x7E, 0x05]);
    assert_eq!(assemble("LD (IY-2), B"), vec![0xFD, 0x70, 0xFE]);
    assert_eq!(assemble("LD (IX+1), 7"), vec![0xDD, 0x36, 0x01, 0x07]);
    assert_eq!(assemble("LD BC, (0x4000)"), vec![0xED, 0x4B, 0x00, 0x40]);
    assert_eq!(assemble("LD (0x4000), SP"), vec![0xED, 0x73, 0x00, 0x40]);
    assert_eq!(assemble("LD (0x4000), A"), vec![0x32, 0x00, 0x40]);
    assert_eq!(assemble("LD SP, IY"), vec![0xFD, 0xF9]);
    assert_eq!(assemble("LD A, I"), vec![0xED, 0x57]);
    assert_eq!(assemble("LD A, (DE)"), vec![0x1A]);
    assert_eq!(assemble_err("LD A"), "Line 1: LD requires 2 ops");
    assert_eq!(assemble_err("LD (BC), 5"), "Line 1: Unsupported instruction");
}

#[test]
fn arithmetic_and_bit_forms_encode() {
    assert_eq!(assemble("ADD A, B"), vec![0x80]);
    assert_eq!(assemble("ADD HL, DE"), vec![0x19]);
    assert_eq!(assemble("ADD IX, SP"), vec![0xDD, 0x39]);
    assert_eq!(assemble("SUB 5"), vec![0xD6, 0x05]);
    assert_eq!(assemble("XOR (HL)"), vec![0xAE]);
    assert_eq!(assemble("CP IXL"), vec![0xDD, 0xBD]);
    assert_eq!(assemble("SBC HL, BC"), vec![0xED, 0x42]);
    assert_eq!(assemble("INC (IX+2)"), vec![0xDD, 0x34, 0x02]);
    assert_eq!(assemble("DEC SP"), vec![0x3B]);
    assert_eq!(assemble("BIT 3, A"), vec![0xCB, 0x5F]);
    assert_eq!(assemble("SET 7, (IY+1), B"), vec![0xFD, 0xCB, 0x01, 0xF8]);
    assert_eq!(assemble("RL (HL)"), vec![0xCB, 0x16]);
    assert_eq!(assemble("SRL (IX+3), C"), vec![0xDD, 0xCB, 0x03, 0x39]);
    assert_eq!(assemble_err("BIT 8, A"), "Line 1: Bit index must be 0-7");
    assert_eq!(assemble_err("BIT 1, (IX+1), A"), "Line 1: BIT does not support 3 operands");
}

#[test]
fn control_and_io_forms_encode() {
    assert_eq!(assemble("JP (HL)"), vec![0xE9]);
    assert_eq!(assemble("JP M, 0x1234"), vec![0xFA, 0x34, 0x12]);
    assert_eq!(assemble("CALL NZ, 0x10"), vec![0xC4, 0x10, 0x00]);
    assert_eq!(assemble("RET C"), vec![0xD8]);
    assert_eq!(assemble("RST 38h"), vec![0xFF]);
    assert_eq!(assemble("PUSH AF"), vec![0xF5]);
    assert_eq!(assemble("POP IY"), vec![0xFD, 0xE1]);
    assert_eq!(assemble("IN B, (C)"), vec![0xED, 0x40]);
    assert_eq!(assemble("OUT (C), E"), vec![0xED, 0x59]);
    assert_eq!(assemble("IM 2"), vec![0xED, 0x5E]);
    assert_eq!(assemble("EX AF, AF'"), vec![0x08]);
    assert_eq!(assemble("EX (SP), IX"), vec![0xDD, 0xE3]);
    assert_eq!(assemble_err("RST 3"), "Line 1: Invalid RST address");
    assert_eq!(assemble_err("IN A, (C)"), "Line 1: Invalid IN form");
    assert_eq!(assemble_err("IM 3"), "Line 1: Invalid IM mode (0, 1, 2)");
    assert_eq!(assemble_err("CALL (HL)"), "Line 1: CALL needs address");
}

#[test]
fn errors_name_their_line() {
    assert_eq!(assemble_err("NOP\n\nFOO"), "Line 3: Unknown mnemonic: FOO");
    assert_eq!(assemble_err("DB 300"), "Line 1: Value 300 too large for DB");
    assert_eq!(assemble_err("JP NOWHERE"), "Line 1: Label not found: NOWHERE");
    assert_eq!(assemble_err("A: NOP\nA: NOP"), "Line 2: Duplicate label 'A'");
    assert_eq!(assemble_err("X EQU 1\nX EQU 2"), "Line 2: Duplicate symbol 'X'");
    assert_eq!(assemble_err(".L: NOP"), "Line 1: Local label '.L' has no global label");
    assert_eq!(assemble_err("DB \"abc"), "Line 1: Unterminated string literal");
    assert_eq!(assemble_err("LD A, #"), "Line 1: Unexpected character: #");
    assert_eq!(assemble_err("ORG 5\nORG 2"), "Line 2: ORG cannot go backwards");
    assert_eq!(assemble_err("L: NOP\nDB L2\nL2: DW 0\nDB L3\nORG 300\nL3: NOP"), "Line 4: Label 'L3' value 300 is too large for DB (byte)");
}

#[test]
fn local_labels_belong_to_the_last_global_label() {
    let r = assemble_with_metadata("MAIN: NOP\n.LOOP: JP .LOOP\nOTHER: NOP").unwrap();
    assert_eq!(r.bytes, vec![0x00, 0xC3, 0x01, 0x00, 0x00]);
    assert_eq!(r.symbol("MAIN.LOOP").unwrap().address, 1);
    assert!(r.symbol(".LOOP").is_none());
}

#[test]
fn data_labels_record_their_kind() {
    let r = assemble_with_metadata("MSG: DB \"Hi\", 0\nTAB: DB 1, 2\n DB 3\nW: DW 5\nBUF: DS 4\nONE: DB 9").unwrap();
    assert_eq!(r.symbol("MSG").unwrap().kind, SymbolType::String(3));
    assert_eq!(r.symbol("TAB").unwrap().kind, SymbolType::Array(2));
    assert_eq!(r.symbol("TAB[3]").unwrap().kind, SymbolType::Byte);
    assert_eq!(r.symbol("TAB[3]").unwrap().address, 5);
    assert_eq!(r.symbol("W").unwrap().kind, SymbolType::Word);
    assert_eq!(r.symbol("BUF").unwrap().kind, SymbolType::Array(4));
    assert_eq!(r.symbol("ONE").unwrap().kind, SymbolType::Byte);
}

#[test]
fn metadata_maps_lines_and_addresses() {
    let r = assemble_with_metadata("NOP\n; comment\nLD A, 1\nORG 8\nHALT").unwrap();
    assert_eq!(r.line_to_address[&1], 0);
    assert_eq!(r.line_to_address[&2], 1);
    assert_eq!(r.line_to_address[&3], 1);
    assert_eq!(r.line_to_address[&5], 8);
    assert_eq!(r.address_to_line[&1], 3);
    assert_eq!(r.lines[&3].bytes, vec![0x3E, 0x01]);
    assert_eq!(r.lines[&4].address, 3);
    assert_eq!(r.image, vec![(0, 0x00), (1, 0x3E), (2, 0x01), (8, 0x76)]);
}

#[test]
fn binary_spans_the_placed_addresses() {
    assert_eq!(assemble_binary("ORG 4\nDB 1\nORG 7\nDB 2").unwrap(), vec![1, 0, 0, 2]);
    assert_eq!(assemble_binary("; nothing").unwrap(), Vec::<u8>::new());
    assert_eq!(assemble_binary("NOP\nDB 7"), Ok(vec![0x00, 0x07]));
    assert!(assemble_binary("FOO").is_err());
}

#[test]
fn tokens_of_numbers_and_words() {
    let t = tokenize("ld a, 0x1F ; $10 0ah 12 'x'").unwrap_err();
    assert_eq!(t, "Unexpected character: ;");
    let t = tokenize("ld a, 0x1F $10 0ah 12 ffh").unwrap();
    assert_eq!(
        t,
        vec![
            Token::Identifier("LD".to_string()),
            Token::Identifier("A".to_string()),
            Token::Comma,
            Token::Number(0x1F),
            Token::Number(0x10),
            Token::Number(0x0A),
            Token::Number(12),
            Token::Number(0xFF),
        ]
    );
    assert_eq!(tokenize("99999").unwrap_err(), "Invalid number");
    assert_eq!(tokenize("0x").unwrap_err(), "Invalid hex number");
    assert_eq!(tokenize("12AB").unwrap_err(), "Invalid number");
}

#[test]
fn classified_tokenizing_uses_the_given_classes() {
    let chars: Vec<char> = "AB".chars().collect();
    let letters = vec![
        CharClass { alphabetic: true, alphanumeric: true },
        CharClass { alphabetic: true, alphanumeric: true },
    ];
    assert_eq!(
        tokenize_classified(&chars, &letters).unwrap(),
        vec![Token::Identifier("AB".to_string())]
    );
    let first_only = vec![
        CharClass { alphabetic: true, alphanumeric: true },
        CharClass { alphabetic: false, alphanumeric: false },
    ];
    assert_eq!(tokenize_classified(&chars, &first_only).unwrap_err(), "Unexpected character: B");
}

#[test]
fn operands_parse() {
    let t = tokenize("(IX-3), -2, (LBL), NZ").unwrap();
    let ops = parse_operands(&t).unwrap();
    assert!(matches!(&ops[0], Operand::IndirectIndex(r, -3) if r == "IX"));
    assert!(matches!(&ops[1], Operand::Immediate(0xFFFE)));
    assert!(matches!(&ops[2], Operand::IndirectLabel(l) if l == "LBL"));
    assert!(matches!(&ops[3], Operand::Condition(c) if c == "NZ"));
    let bad = tokenize("A B").unwrap();
    assert_eq!(parse_operands(&bad).unwrap_err(), "Expected comma");
    let open = tokenize("(HL").unwrap();
    assert_eq!(parse_operands(&open).unwrap_err(), "Expected )");
}

#[test]
fn later_bytes_at_an_address_win_in_the_binary() {
    let r = assemble_with_metadata("DS L2, 0xAA\nNOP\nL2: NOP").unwrap();
    assert_eq!(r.image, vec![(0, 0xAA), (0, 0x00), (1, 0x00)]);
    assert_eq!(assemble_binary("DS L2, 0xAA\nNOP\nL2: NOP").unwrap(), vec![0x00, 0x00]);
}
