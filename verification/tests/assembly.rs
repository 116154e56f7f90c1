use lc3::assembler::asm_error::{
    message, AsmError, ErrorType, ADDRESS_OVERFLOW_MESSAGE, ORIGIN_MESSAGE,
};
use lc3::assembler::asm_ins::{OpcodeIns, HALT_VAL};
use lc3::assembler::assembler::{image_bytes, image_from_bytes, Asm};
use lc3::assembler::directive::Directive;
use lc3::assembler::encoding::encode;
use lc3::assembler::passes::{group, Item};
use lc3::assembler::symbols::SymbolTable;
use lc3::assembler::token::{Token, TokenType};

fn assemble(source: &str) -> (Option<Vec<u16>>, Vec<AsmError>) {
    let mut assembler = Asm::new().unwrap();
    let image = assembler.run(source.to_string());
    (image, assembler.errors)
}

fn kinds(errors: &Vec<AsmError>) -> Vec<ErrorType> {
    errors.iter().map(|e| e.error_type).collect()
}

fn token(kind: TokenType, line_num: usize) -> Token {
    Token { inner_token: kind, from: 0, to: 0, line_num, original_match: String::new() }
}

#[test]
fn every_instruction_is_encoded_bit_for_bit() {
    let (image, errors) = assemble(
        "
        .ORIG x3000
A       ADD R1, R2, R3
        ADD R1, R2, #-1
        AND R4, R5, R6
        AND R4, R5, #15
        NOT R7, R0
        BR A
        BRn A
        BRzp B
        JMP R3
        RET
        JSR A
        JSRR R5
        LD R1, A
        LDI R2, B
        LDR R3, R4, #-32
        LEA R5, B
        ST R6, A
        STI R7, B
        STR R0, R1, #31
        RTI
        GETC
        OUT
        PUTS
        IN
        HALT
B       .FILL x1234
        .END",
    );
    assert!(errors.is_empty());
    assert_eq!(
        image.unwrap(),
        vec![
            0x3000, 0x1283, 0x12BF, 0x5946, 0x596F, 0x9E3F, 0x0FFA, 0x09F9, 0x0611, 0xC0C0,
            0xC1C0, 0x4FF5, 0x4140, 0x23F3, 0xA40B, 0x6720, 0xEA09, 0x3DEF, 0xBE07, 0x705F,
            0x8000, 0xF020, 0xF021, 0xF022, 0xF023, 0xF025, 0x1234,
        ]
    );
}

#[test]
fn forward_and_backward_references_meet() {
    let (image, errors) = assemble(
        "
        .ORIG x3000
        LD R1, DATA     ; in front of the definition
        LD R2, DATA
DATA    .FILL #7
        LD R3, DATA     ; behind the definition
        .END",
    );
    assert!(errors.is_empty());
    let image = image.unwrap();
    assert_eq!(image, vec![0x3000, 0x2201, 0x2400, 0x0007, 0x27FE]);
    let target = |at: u16, word: u16| {
        let field = word & 0x1FF;
        let offset = if field & 0x100 != 0 { field | 0xFE00 } else { field };
        at.wrapping_add(1).wrapping_add(offset)
    };
    assert_eq!(target(0x3000, image[1]), 0x3002);
    assert_eq!(target(0x3001, image[2]), 0x3002);
    assert_eq!(target(0x3003, image[4]), 0x3002);
}

#[test]
fn two_malformed_lines_give_two_errors_and_no_image() {
    let (image, errors) = assemble(".ORIG x3000\n1234\nADD R1, R1, #1\n?!\nHALT\n.END");
    assert!(image.is_none());
    assert_eq!(kinds(&errors), vec![ErrorType::SyntaxError, ErrorType::SyntaxError]);
    assert_eq!(errors[0].line, "1234");
    assert_eq!(errors[0].line_num, 2);
    assert_eq!(errors[1].line, "?!");
    assert_eq!(errors[1].line_num, 4);
}

#[test]
fn errors_of_all_stages_accumulate() {
    let (image, errors) = assemble(
        ".ORIG x3000\n1234\nADD R1, R1\nLD R1, NOWHERE\nADD R1, R1, #16\nHALT\n.END",
    );
    assert!(image.is_none());
    assert_eq!(
        kinds(&errors),
        vec![
            ErrorType::SyntaxError,
            ErrorType::OperandShapeError,
            ErrorType::UnresolvedLabelError,
            ErrorType::ImmediateRangeError,
        ]
    );
    assert_eq!(errors[1].line, "ADD");
    assert_eq!(errors[1].line_num, 3);
    assert_eq!(errors[1].message, message(ErrorType::OperandShapeError));
    assert_eq!(errors[2].line_num, 4);
    assert_eq!(errors[3].line_num, 5);
}

#[test]
fn operand_shape_errors() {
    for line in [
        "ADD R1, R2",
        "ADD R1, R2, R3, R4",
        "ADD R1, #2, R3",
        "ADD R1, R2, LABEL",
        "NOT R1",
        "BR",
        "BR R1",
        "JMP LABEL",
        "RET R7",
        "HALT R0",
        "LDR R1, R2, LABEL",
        "LD LABEL, R1",
        ".FILL",
        ".FILL R1",
        ".BLKW \"text\"",
        ".STRINGZ #5",
        ".END #1",
    ] {
        let (image, errors) = assemble(&format!(".ORIG x3000\nLABEL {line}\n.END"));
        assert!(image.is_none(), "{line}");
        assert_eq!(kinds(&errors), vec![ErrorType::OperandShapeError], "{line}");
    }
}

#[test]
fn immediates_at_the_edge_of_their_field() {
    for (line, word) in [
        ("ADD R0, R0, #15", 0x102F),
        ("ADD R0, R0, #-16", 0x1030),
        ("AND R0, R0, x000F", 0x502F),
        ("AND R0, R0, xFFF0", 0x5030),
        ("LDR R0, R0, #31", 0x601F),
        ("LDR R0, R0, #-32", 0x6020),
    ] {
        let (image, errors) = assemble(&format!(".ORIG x3000\n{line}\n.END"));
        assert!(errors.is_empty(), "{line}");
        assert_eq!(image.unwrap(), vec![0x3000, word], "{line}");
    }
    for line in ["ADD R0, R0, #16", "ADD R0, R0, #-17", "AND R0, R0, x001F", "LDR R0, R0, #32", "STR R0, R0, #-33"] {
        let (image, errors) = assemble(&format!(".ORIG x3000\n{line}\n.END"));
        assert!(image.is_none(), "{line}");
        assert_eq!(kinds(&errors), vec![ErrorType::ImmediateRangeError], "{line}");
    }
}

#[test]
fn offsets_at_the_edge_of_their_field() {
    let (image, errors) = assemble(".ORIG x3000\nBR FAR\n.BLKW #255\nFAR HALT\n.END");
    assert!(errors.is_empty());
    assert_eq!(image.unwrap()[1], 0x0EFF);
    let (image, errors) = assemble(".ORIG x3000\nBR FAR\n.BLKW #256\nFAR HALT\n.END");
    assert!(image.is_none());
    assert_eq!(kinds(&errors), vec![ErrorType::ImmediateRangeError]);
    let (image, errors) = assemble(".ORIG x3000\nBACK .BLKW #255\nBR BACK\n.END");
    assert!(errors.is_empty());
    assert_eq!(image.unwrap()[256], 0x0F00);
    let (image, errors) = assemble(".ORIG x3000\nBACK .BLKW #256\nBR BACK\n.END");
    assert!(image.is_none());
    assert_eq!(kinds(&errors), vec![ErrorType::ImmediateRangeError]);
    let (image, errors) = assemble(".ORIG x3000\nJSR FAR\n.BLKW #1023\nFAR HALT\n.END");
    assert!(errors.is_empty());
    assert_eq!(image.unwrap()[1], 0x4BFF);
    let (image, _) = assemble(".ORIG x3000\nJSR FAR\n.BLKW #1024\nFAR HALT\n.END");
    assert!(image.is_none());
}

#[test]
fn directives_fill_the_image() {
    let (image, errors) = assemble(
        ".ORIG x4000\n.FILL #-1\n.BLKW #3\n.STRINGZ \"Hi!\"\n.STRINGZ \"\"\n.FILL x00FF\n.END",
    );
    assert!(errors.is_empty());
    assert_eq!(
        image.unwrap(),
        vec![0x4000, 0xFFFF, 0, 0, 0, 'H' as u16, 'i' as u16, '!' as u16, 0, 0, 0x00FF]
    );
}

#[test]
fn labels_get_the_address_of_what_follows() {
    let mut assembler = Asm::new().unwrap();
    let image = assembler
        .run(".ORIG x3000\nA HALT\nB .BLKW #2\nC .STRINGZ \"ab\"\nD\nE HALT\n.END".to_string());
    assert!(image.is_some());
    assert_eq!(assembler.symbol_table.lookup("A"), Some(0x3000));
    assert_eq!(assembler.symbol_table.lookup("B"), Some(0x3001));
    assert_eq!(assembler.symbol_table.lookup("C"), Some(0x3003));
    assert_eq!(assembler.symbol_table.lookup("D"), Some(0x3006));
    assert_eq!(assembler.symbol_table.lookup("E"), Some(0x3006));
    assert_eq!(assembler.symbol_table.lookup("F"), None);
}

#[test]
fn a_label_cannot_be_defined_twice() {
    let (image, errors) = assemble(".ORIG x3000\nA HALT\nA HALT\n.END");
    assert!(image.is_none());
    assert_eq!(kinds(&errors), vec![ErrorType::DuplicateLabelError]);
    assert_eq!(errors[0].line, "A");
    assert_eq!(errors[0].line_num, 3);
}

#[test]
fn the_origin_comes_first_and_once() {
    let (image, errors) = assemble("HALT\n.END");
    assert!(image.is_none());
    assert_eq!(kinds(&errors), vec![ErrorType::OriginError]);
    assert_eq!(errors[0].line, "");
    assert_eq!(errors[0].line_num, 0);
    assert_eq!(errors[0].message, ORIGIN_MESSAGE);

    let (image, errors) = assemble("");
    assert!(image.is_none());
    assert_eq!(kinds(&errors), vec![ErrorType::OriginError]);

    let (image, errors) = assemble(".ORIG x3000\nHALT\n.ORIG x4000\n.END");
    assert!(image.is_none());
    assert_eq!(kinds(&errors), vec![ErrorType::OriginError]);
    assert_eq!(errors[0].line_num, 3);

    let (image, errors) = assemble("HALT\n.ORIG x3000\n.END");
    assert!(image.is_none());
    assert_eq!(kinds(&errors), vec![ErrorType::OriginError, ErrorType::OriginError]);

    let (image, errors) = assemble(".ORIG\nHALT\n.END");
    assert!(image.is_none());
    assert_eq!(kinds(&errors), vec![ErrorType::OriginError, ErrorType::OperandShapeError]);
}

#[test]
fn nothing_counts_behind_end() {
    let (image, errors) = assemble(".ORIG x3000\nHALT\n.END\nADD R1\nA A A\n.ORIG x1\nR1");
    assert!(errors.is_empty());
    assert_eq!(image.unwrap(), vec![0x3000, 0xF025]);
}

#[test]
fn a_program_has_to_fit_below_the_top() {
    let (image, errors) = assemble(".ORIG xFFFE\nHALT\nHALT\n.END");
    assert!(errors.is_empty());
    assert_eq!(image.unwrap(), vec![0xFFFE, 0xF025, 0xF025]);

    let (image, errors) = assemble(".ORIG xFFFE\nHALT\nHALT\nTOP HALT\n.END");
    assert!(image.is_none());
    assert_eq!(kinds(&errors), vec![ErrorType::AddressOverflowError, ErrorType::AddressOverflowError]);
    assert_eq!(errors[0].line, "TOP");
    assert_eq!(errors[1].line, "HALT");
    assert_eq!(errors[1].message, ADDRESS_OVERFLOW_MESSAGE);

    let (image, errors) = assemble(".ORIG x8000\n.BLKW x8000\n.END");
    assert!(errors.is_empty());
    assert_eq!(image.unwrap().len(), 0x8001);

    let (image, errors) = assemble(".ORIG x8000\n.BLKW x8001\n.END");
    assert!(image.is_none());
    assert_eq!(kinds(&errors), vec![ErrorType::AddressOverflowError]);
}

#[test]
fn stray_and_invalid_tokens_are_errors() {
    let (image, errors) = assemble(".ORIG x3000\n#32768 HALT\n.END");
    assert!(image.is_none());
    assert_eq!(kinds(&errors), vec![ErrorType::InvalidTokenError]);
    assert_eq!(errors[0].line, "#32768");

    let (image, errors) = assemble(".ORIG x3000\nR1 HALT\n.END");
    assert!(image.is_none());
    assert_eq!(kinds(&errors), vec![ErrorType::InvalidTokenError]);

    let (image, errors) = assemble(".ORIG x3000\n.FILL #99999\n.END");
    assert!(image.is_none());
    assert_eq!(kinds(&errors), vec![ErrorType::OperandShapeError]);
}

#[test]
fn tokens_that_name_no_instruction_are_never_encoded() {
    let mut assembler = Asm::new().unwrap();
    let tokens = vec![
        token(TokenType::Directive(Directive::ORIG), 1),
        token(TokenType::Number(0x3000), 1),
        token(TokenType::Instruction(OpcodeIns::INVALID), 2),
        token(TokenType::Instruction(OpcodeIns::Reserved), 3),
        token(TokenType::Instruction(OpcodeIns::Trap(0x99)), 4),
        token(TokenType::Instruction(OpcodeIns::Add), 5),
        token(TokenType::Register(1), 5),
        token(TokenType::Register(8), 5),
        token(TokenType::Register(2), 5),
    ];
    let image = assembler.assemble(&tokens);
    assert!(image.is_none());
    assert_eq!(
        kinds(&assembler.errors),
        vec![
            ErrorType::InvalidTokenError,
            ErrorType::InvalidTokenError,
            ErrorType::InvalidTokenError,
            ErrorType::OperandShapeError,
        ]
    );
}

#[test]
fn assemble_appends_to_earlier_errors() {
    let mut assembler = Asm::new().unwrap();
    assembler.errors.push(AsmError::new("x", 9, ErrorType::SyntaxError, "y"));
    let tokens = vec![
        token(TokenType::Directive(Directive::ORIG), 1),
        token(TokenType::Number(0x3000), 1),
        token(TokenType::Instruction(OpcodeIns::Trap(HALT_VAL)), 2),
    ];
    assert!(assembler.assemble(&tokens).is_none());
    assert_eq!(kinds(&assembler.errors), vec![ErrorType::SyntaxError]);
    assembler.errors.clear();
    assert_eq!(assembler.assemble(&tokens), Some(vec![0x3000, 0xF025]));
}

#[test]
fn operands_belong_to_the_statement_on_their_line() {
    let tokens = vec![
        token(TokenType::Label("A".to_string()), 1),
        token(TokenType::Instruction(OpcodeIns::Br(true, true, true)), 1),
        token(TokenType::Label("B".to_string()), 1),
        token(TokenType::Label("B".to_string()), 2),
        token(TokenType::Register(1), 2),
        token(TokenType::Instruction(OpcodeIns::Not), 2),
        token(TokenType::Register(1), 2),
        token(TokenType::Register(2), 2),
        token(TokenType::Directive(Directive::END), 2),
    ];
    assert_eq!(
        group(&tokens),
        vec![
            Item::Definition(0),
            Item::Statement(1, 3),
            Item::Definition(3),
            Item::Stray(4),
            Item::Statement(5, 8),
            Item::Statement(8, 9),
        ]
    );
}

#[test]
fn encode_one_statement() {
    let mut symbols = SymbolTable::new();
    assert!(symbols.insert("HERE", 0x3005));
    assert!(!symbols.insert("HERE", 0x3006));
    let tokens = vec![
        token(TokenType::Register(3), 1),
        token(TokenType::Label("HERE".to_string()), 1),
    ];
    let head = TokenType::Instruction(OpcodeIns::Lea);
    assert_eq!(encode(&head, &tokens, 0, 2, 0x3000, &symbols), Ok(vec![0xE604]));
    assert_eq!(encode(&head, &tokens, 0, 2, 0x3005, &symbols), Ok(vec![0xE7FF]));
    assert_eq!(encode(&head, &tokens, 0, 1, 0x3000, &symbols), Err(ErrorType::OperandShapeError));
    assert_eq!(
        encode(&head, &tokens, 0, 2, 0x2000, &symbols),
        Err(ErrorType::ImmediateRangeError)
    );
    let other = vec![token(TokenType::Register(3), 1), token(TokenType::Label("THERE".to_string()), 1)];
    assert_eq!(
        encode(&head, &other, 0, 2, 0x3000, &symbols),
        Err(ErrorType::UnresolvedLabelError)
    );
    assert_eq!(
        encode(&TokenType::Register(1), &tokens, 0, 0, 0x3000, &symbols),
        Err(ErrorType::InvalidTokenError)
    );
}

#[test]
fn image_bytes_are_big_endian() {
    assert_eq!(image_bytes(&vec![0x3000, 0x126A, 0x00FF]), vec![0x30, 0x00, 0x12, 0x6A, 0x00, 0xFF]);
    assert_eq!(image_bytes(&vec![]), Vec::<u8>::new());
}

#[test]
fn error_kinds_have_their_messages() {
    for kind in [
        ErrorType::SyntaxError,
        ErrorType::OperandShapeError,
        ErrorType::ImmediateRangeError,
        ErrorType::UnresolvedLabelError,
        ErrorType::DuplicateLabelError,
        ErrorType::OriginError,
        ErrorType::AddressOverflowError,
        ErrorType::InvalidTokenError,
    ] {
        assert!(!message(kind).is_empty());
    }
    let error = AsmError::new("ADD R1", 4, ErrorType::OperandShapeError, "wrong");
    assert_eq!(error.line, "ADD R1");
    assert_eq!(error.line_num, 4);
    assert_eq!(error.error_type, ErrorType::OperandShapeError);
    assert_eq!(error.message, "wrong");
    assert_eq!(error.duplicate(), error);
}

#[test]
fn add_and_immediates_round_trip() {
    for (mnemonic, opcode) in [("ADD", 1u16), ("AND", 5u16)] {
        for immediate in -16i16..=15 {
            for (dr, sr) in [(0u16, 7u16), (3, 3), (7, 0), (5, 2)] {
                let (image, errors) =
                    assemble(&format!(".ORIG x3000\n{mnemonic} R{dr}, R{sr}, #{immediate}\n.END"));
                assert!(errors.is_empty());
                let word = image.unwrap()[1];
                assert_eq!(word >> 12, opcode);
                assert_eq!((word >> 9) & 7, dr);
                assert_eq!((word >> 6) & 7, sr);
                assert_eq!((word >> 5) & 1, 1);
                assert_eq!(lc3::vm::instructions::sign_extend(word & 0x1F, 5) as i16, immediate);
            }
        }
    }
}

#[test]
fn add_and_registers_round_trip() {
    for (mnemonic, opcode) in [("ADD", 1u16), ("AND", 5u16)] {
        for sr2 in 0u16..8 {
            let (image, errors) = assemble(&format!(".ORIG x3000\n{mnemonic} R6, R1, R{sr2}\n.END"));
            assert!(errors.is_empty());
            let word = image.unwrap()[1];
            assert_eq!(word >> 12, opcode);
            assert_eq!((word >> 9) & 7, 6);
            assert_eq!((word >> 6) & 7, 1);
            assert_eq!((word >> 3) & 7, 0);
            assert_eq!(word & 7, sr2);
        }
    }
}

#[test]
fn any_text_is_either_assembled_or_reported() {
    let alphabet: Vec<char> =
        " \t\n\r,;.#-x\"RrADNBLTSPHOIGFKWZEMJUCV_0123456789\u{e9}\u{4e2d}\u{1F600}?:".chars().collect();
    let mut state: u64 = 0x2545F4914F6CDD1D;
    let mut assembler = Asm::new().unwrap();
    for round in 0..300 {
        let mut source = String::new();
        if round % 2 == 0 {
            source.push_str(".ORIG x3000\n");
        }
        let length = 1 + (round % 120);
        for _ in 0..length {
            state ^= state << 13;
            state ^= state >> 7;
            state ^= state << 17;
            source.push(alphabet[(state % alphabet.len() as u64) as usize]);
        }
        let image = assembler.run(source.clone());
        assert_eq!(image.is_some(), assembler.errors.is_empty(), "{source:?}");
        if let Some(words) = image {
            assert!(!words.is_empty());
            assert!(words[0] as usize + words.len() - 1 <= 65536);
        }
    }
}

#[test]
fn image_bytes_can_be_read_back() {
    assert_eq!(image_from_bytes(&vec![0x30, 0x00, 0x12, 0x6A, 0x00, 0xFF]), Some(vec![0x3000, 0x126A, 0x00FF]));
    assert_eq!(image_from_bytes(&vec![]), Some(vec![]));
    assert_eq!(image_from_bytes(&vec![0x30]), None);
    assert_eq!(image_from_bytes(&vec![0x30, 0x00, 0x12]), None);
    let image = vec![0xFFFE, 0x0001, 0x8000, 0x7FFF, 0x1234];
    assert_eq!(image_from_bytes(&image_bytes(&image)), Some(image));
}
