use sim8051::jump_table::JumpTable;
use sim8051::lexer::{lex, Token, TokenType, Tokenizer};
use sim8051::machine::{IRegs, Ports, ScratchpadRegisters, SFR};
use sim8051::operand::Mnemonic;
use sim8051::text::{bytes_eq, copy_range, hex_number, scan, CharClass};

fn token(text: &str, pos: usize) -> Token {
    lex(text.as_bytes(), pos)
}

#[test]
fn hex_literal_needs_its_suffix() {
    assert_eq!(token("22H", 0), Token { token: TokenType::HEX(0x22), len: 3 });
    assert_eq!(token("0F0H,", 0), Token { token: TokenType::HEX(0xF0), len: 4 });
    assert_eq!(token("22", 0), Token { token: TokenType::INVALID, len: 1 });
    assert_eq!(token("22G", 0), Token { token: TokenType::INVALID, len: 1 });
    assert_eq!(token("  9H", 0), Token { token: TokenType::HEX(9), len: 4 });
}

#[test]
fn hex_literal_keeps_sixteen_bits() {
    assert_eq!(token("0FFFFH", 0), Token { token: TokenType::HEX(0xFFFF), len: 6 });
    assert_eq!(token("12345H", 0), Token { token: TokenType::HEX(0x2345), len: 6 });
    assert_eq!(hex_number(b"12345", 0, 5), 0x2345);
    assert_eq!(hex_number(b"ABCD", 1, 3), 0xBC);
    assert_eq!(hex_number(b"ABCD", 2, 2), 0);
}

#[test]
fn immediate_takes_an_optional_suffix() {
    assert_eq!(token("#0FH", 0), Token { token: TokenType::IMM(0x0F), len: 4 });
    assert_eq!(token("#10", 0), Token { token: TokenType::IMM(0x10), len: 3 });
    assert_eq!(token("#1,", 0), Token { token: TokenType::IMM(1), len: 2 });
    assert_eq!(token("#", 0), Token { token: TokenType::INVALID, len: 1 });
    assert_eq!(token("#H", 0), Token { token: TokenType::INVALID, len: 1 });
    assert_eq!(token("#G", 0), Token { token: TokenType::INVALID, len: 1 });
}

#[test]
fn indirect_register_must_be_a_scratchpad_register() {
    assert_eq!(token("@R0", 0), Token { token: TokenType::IND(ScratchpadRegisters::R0), len: 3 });
    assert_eq!(token(" @R7 ", 0), Token { token: TokenType::IND(ScratchpadRegisters::R7), len: 4 });
    assert_eq!(token("@R8", 0), Token { token: TokenType::INVALID, len: 1 });
    assert_eq!(token("@A", 0), Token { token: TokenType::INVALID, len: 1 });
    assert_eq!(token("@1", 0), Token { token: TokenType::INVALID, len: 1 });
}

#[test]
fn separators_and_line_breaks() {
    assert_eq!(token(",", 0), Token { token: TokenType::COMMA, len: 1 });
    assert_eq!(token("  ,x", 0), Token { token: TokenType::COMMA, len: 3 });
    assert_eq!(token("\n", 0), Token { token: TokenType::LINE, len: 1 });
    assert_eq!(token("\t\r\n", 0), Token { token: TokenType::LINE, len: 2 });
}

#[test]
fn end_of_input_and_end_marker() {
    assert_eq!(token("", 0), Token { token: TokenType::NULL, len: 0 });
    assert_eq!(token("   ", 0), Token { token: TokenType::NULL, len: 3 });
    assert_eq!(token("  $", 0), Token { token: TokenType::NULL, len: 2 });
    assert_eq!(token("abc", 3), Token { token: TokenType::NULL, len: 0 });
    assert_eq!(token("abc", 10), Token { token: TokenType::NULL, len: 0 });
}

#[test]
fn identifiers_labels_and_bit_addresses() {
    assert_eq!(token("mov A", 0), Token { token: TokenType::ID(b"mov".to_vec()), len: 3 });
    assert_eq!(token("mov A", 3), Token { token: TokenType::ID(b"A".to_vec()), len: 2 });
    assert_eq!(token("loop1: inc", 0), Token { token: TokenType::LABEL(b"loop1:".to_vec()), len: 6 });
    assert_eq!(
        token("P1.3", 0),
        Token { token: TokenType::BIT_ADDR(SFR::Port(Ports::P1), 3), len: 4 }
    );
    assert_eq!(
        token(" ACC.7,", 0),
        Token { token: TokenType::BIT_ADDR(SFR::Reg(IRegs::ACC), 7), len: 6 }
    );
    assert_eq!(
        token("PSW.0", 0),
        Token { token: TokenType::BIT_ADDR(SFR::Reg(IRegs::PSW), 0), len: 5 }
    );
    assert_eq!(token("P1.8", 0), Token { token: TokenType::ID(b"P1".to_vec()), len: 2 });
    assert_eq!(token("FOO.1", 0), Token { token: TokenType::ID(b"FOO".to_vec()), len: 3 });
    assert_eq!(token(".1", 0), Token { token: TokenType::INVALID, len: 1 });
}

#[test]
fn bytes_that_form_no_token() {
    assert_eq!(token("^", 0), Token { token: TokenType::INVALID, len: 1 });
    assert_eq!(token("  /", 0), Token { token: TokenType::INVALID, len: 3 });
    assert_eq!(token("_x", 0), Token { token: TokenType::INVALID, len: 1 });
}

#[test]
fn tokenizer_walks_a_statement() {
    let mut t = Tokenizer::new(b"mov @R0, #22H \n mov R1, 34H".to_vec());
    assert_eq!(t.parse_next(), Some(Token { token: TokenType::ID(b"mov".to_vec()), len: 3 }));
    assert_eq!(t.parse_next(), Some(Token { token: TokenType::IND(ScratchpadRegisters::R0), len: 4 }));
    assert_eq!(t.parse_next(), Some(Token { token: TokenType::COMMA, len: 1 }));
    assert_eq!(t.parse_next(), Some(Token { token: TokenType::IMM(0x22), len: 5 }));
    assert_eq!(t.parse_next(), Some(Token { token: TokenType::LINE, len: 2 }));
    assert_eq!(t.parse_next(), Some(Token { token: TokenType::ID(b"mov".to_vec()), len: 4 }));
    assert_eq!(t.parse_next(), Some(Token { token: TokenType::ID(b"R1".to_vec()), len: 3 }));
    assert_eq!(t.parse_next(), Some(Token { token: TokenType::COMMA, len: 1 }));
    assert_eq!(t.parse_next(), Some(Token { token: TokenType::HEX(0x34), len: 4 }));
    assert_eq!(t.pos, 27);
    assert_eq!(t.parse_next(), None);
    assert_eq!(t.pos, 27);
}

#[test]
fn tokenizer_stops_at_invalid_bytes() {
    let mut t = Tokenizer::new(b"  ?".to_vec());
    assert_eq!(t.peek(), Token { token: TokenType::INVALID, len: 3 });
    assert_eq!(t.parse_next(), None);
    assert_eq!(t.pos, 0);
}

#[test]
fn tokenizer_single_grammars() {
    let t = Tokenizer { src: b"ABH".to_vec(), pos: 0 };
    assert_eq!(t.parse_hex(), Some(Token { token: TokenType::HEX(0xAB), len: 3 }));
    let t = Tokenizer { src: b"ABZH".to_vec(), pos: 0 };
    assert_eq!(t.parse_hex(), None);
    let t = Tokenizer { src: b"H".to_vec(), pos: 0 };
    assert_eq!(t.parse_hex(), Some(Token { token: TokenType::HEX(0), len: 1 }));
    let t = Tokenizer { src: b"  Something wild".to_vec(), pos: 0 };
    assert_eq!(t.parse_id(), Some(Token { token: TokenType::ID(b"Something".to_vec()), len: 11 }));
    let t = Tokenizer { src: b"1abc".to_vec(), pos: 0 };
    assert_eq!(t.parse_id(), None);
    let t = Tokenizer { src: b"here: nop".to_vec(), pos: 0 };
    assert_eq!(t.parse_label(), Some(Token { token: TokenType::LABEL(b"here:".to_vec()), len: 5 }));
    let t = Tokenizer { src: b"here nop".to_vec(), pos: 0 };
    assert_eq!(t.parse_label(), None);
    let t = Tokenizer { src: b"P2.1 a,b".to_vec(), pos: 0 };
    assert_eq!(
        t.parse_bitaddr(),
        Some(Token { token: TokenType::BIT_ADDR(SFR::Port(Ports::P2), 1), len: 4 })
    );
    let t = Tokenizer { src: b"Q2.1".to_vec(), pos: 0 };
    assert_eq!(t.parse_bitaddr(), None);
    let t = Tokenizer { src: b"P2.9".to_vec(), pos: 0 };
    assert_eq!(t.parse_bitaddr(), None);
}

#[test]
fn tokenizer_commas_and_newlines() {
    let mut t = Tokenizer { src: b",x \n\t y".to_vec(), pos: 0 };
    assert!(t.consume_comma());
    assert_eq!(t.pos, 1);
    assert!(!t.consume_comma());
    assert_eq!(t.pos, 1);
    assert!(!t.consume_newlines());
    t.pos = 2;
    assert!(t.consume_newlines());
    assert_eq!(t.pos, 6);
    t.pos = 100;
    assert!(!t.consume_comma());
    assert!(!t.consume_newlines());
    assert_eq!(t.pos, 100);
    let d = Tokenizer::default();
    assert!(d.src.is_empty());
    assert_eq!(d.pos, 0);
}

#[test]
fn scanning_runs() {
    assert_eq!(scan(b"  \t x", 0, CharClass::Blank), 4);
    assert_eq!(scan(b"  \n x", 0, CharClass::Blank), 2);
    assert_eq!(scan(b"  \n x", 0, CharClass::Space), 4);
    assert_eq!(scan(b"12AFG", 0, CharClass::Hex), 4);
    assert_eq!(scan(b"ab1_", 0, CharClass::Alnum), 3);
    assert_eq!(scan(b"abc", 7, CharClass::Alnum), 7);
    assert!(bytes_eq(b"abc", b"abc"));
    assert!(!bytes_eq(b"abc", b"abd"));
    assert!(!bytes_eq(b"abc", b"ab"));
    assert_eq!(copy_range(b"hello", 1, 4), b"ell".to_vec());
}

#[test]
fn names_resolve_exactly() {
    assert_eq!(SFR::from_name(b"P0"), Some(SFR::Port(Ports::P0)));
    assert_eq!(SFR::from_name(b"P3"), Some(SFR::Port(Ports::P3)));
    assert_eq!(SFR::from_name(b"ACC"), Some(SFR::Reg(IRegs::ACC)));
    assert_eq!(SFR::from_name(b"B"), Some(SFR::Reg(IRegs::B)));
    assert_eq!(SFR::from_name(b"PSW"), Some(SFR::Reg(IRegs::PSW)));
    assert_eq!(SFR::from_name(b"SP"), Some(SFR::Reg(IRegs::SP)));
    assert_eq!(SFR::from_name(b"DPTR"), Some(SFR::Reg(IRegs::DPTR)));
    assert_eq!(SFR::from_name(b"IP"), Some(SFR::Reg(IRegs::IP)));
    assert_eq!(SFR::from_name(b"psw"), None);
    assert_eq!(SFR::from_name(b"P4"), None);
    assert_eq!("ACC".parse::<SFR>(), Ok(SFR::Reg(IRegs::ACC)));
    assert_eq!("acc".parse::<SFR>(), Err(()));
    assert_eq!(ScratchpadRegisters::from_name(b"R5"), Some(ScratchpadRegisters::R5));
    assert_eq!(ScratchpadRegisters::from_name(b"r5"), None);
    assert_eq!("R8".parse::<ScratchpadRegisters>(), Err(()));
    assert_eq!(ScratchpadRegisters::R0.reg_count(), 0);
    assert_eq!(ScratchpadRegisters::R7.reg_count(), 7);
    assert_eq!(Mnemonic::from_name(b"mov"), Mnemonic::Mov);
    assert_eq!(Mnemonic::from_name(b"cjne"), Mnemonic::Cjne);
    assert_eq!(Mnemonic::from_name(b"end"), Mnemonic::End);
    assert_eq!(Mnemonic::from_name(b"MOV"), Mnemonic::Unknown);
    assert_eq!(Mnemonic::from_name(b"halt"), Mnemonic::Unknown);
}

#[test]
fn jump_table_is_a_map() {
    let mut table = JumpTable::new();
    assert_eq!(table.len(), 0);
    assert_eq!(table.get(b"loop"), None);
    table.insert(b"loop".to_vec(), 10);
    table.insert(b"done".to_vec(), 20);
    assert_eq!(table.len(), 2);
    assert_eq!(table.get(b"loop"), Some(10));
    assert_eq!(table.get(b"done"), Some(20));
    table.insert(b"loop".to_vec(), 30);
    assert_eq!(table.len(), 2);
    assert_eq!(table.get(b"loop"), Some(30));
    assert_eq!(table.name_at(0), &b"loop".to_vec());
    assert_eq!(table.name_at(1), &b"done".to_vec());
    assert_eq!(table.remove(b"loop"), Some(30));
    assert_eq!(table.remove(b"loop"), None);
    assert_eq!(table.get(b"loop"), None);
    assert_eq!(table.get(b"done"), Some(20));
    assert_eq!(table.len(), 1);
}
