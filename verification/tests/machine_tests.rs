use sim8051::lexer::{lex, Token, TokenType};
use sim8051::bits::parity;
use sim8051::error::ErrorKind;
use sim8051::machine::{
    sfr_addr, BitOperator, IRegs, InternalMemory, Ports, ScratchpadRegisters, Sim8051, SFR,
};

#[test]
fn sfr_addresses_are_fixed() {
    assert_eq!(sfr_addr(&SFR::Reg(IRegs::ACC)), 0xE0);
    assert_eq!(sfr_addr(&SFR::Reg(IRegs::B)), 0xF0);
    assert_eq!(sfr_addr(&SFR::Reg(IRegs::PSW)), 0xD0);
    assert_eq!(sfr_addr(&SFR::Reg(IRegs::SP)), 0x81);
    assert_eq!(sfr_addr(&SFR::Reg(IRegs::DPTR)), 0x82);
    assert_eq!(sfr_addr(&SFR::Reg(IRegs::IP)), 0xB8);
    assert_eq!(sfr_addr(&SFR::Port(Ports::P0)), 0x80);
    assert_eq!(sfr_addr(&SFR::Port(Ports::P1)), 0x90);
    assert_eq!(sfr_addr(&SFR::Port(Ports::P2)), 0xA0);
    assert_eq!(sfr_addr(&SFR::Port(Ports::P3)), 0xB0);
}

#[test]
fn register_bank_window_writes_through() {
    let mut memory = InternalMemory::default();
    for addr in 0..32u8 {
        memory.write(addr, 0xAB);
    }
    {
        let mut bank = memory.get_register_bank(1).unwrap();
        assert_eq!(bank.ptr.len(), 8);
        bank.clear();
    }
    for addr in 0..32u8 {
        let expected = if (8..16).contains(&addr) { 0 } else { 0xAB };
        assert_eq!(memory.read(addr), expected);
    }
}

#[test]
fn lex_reads_an_immediate() {
    let tok = lex(b"  #0FH", 0);
    assert_eq!(tok, Token { token: TokenType::IMM(0x0F), len: 6 });
    assert_eq!("R3".parse::<ScratchpadRegisters>(), Ok(ScratchpadRegisters::R3));
    let mut sim = Sim8051::default();
    sim.mov(0xE0, 0xFF);
    sim.add(1);
    assert_eq!(sim.accumulator(), 0);
    assert!(sim.carry());
}

#[test]
fn register_bank_selector_is_checked() {
    let mut memory = InternalMemory::default();
    assert!(memory.get_register_bank(0).is_ok());
    assert!(memory.get_register_bank(3).is_ok());
    assert_eq!(memory.get_register_bank(4).err(), Some(ErrorKind::BankOutOfRange));
    assert_eq!(memory.get_register_bank(255).err(), Some(ErrorKind::BankOutOfRange));
}

#[test]
fn write_then_read_round_trip() {
    let mut memory = InternalMemory::default();
    for addr in 0..=255u8 {
        memory.write(addr, addr ^ 0x5A);
    }
    for addr in 0..=255u8 {
        assert_eq!(memory.read(addr), addr ^ 0x5A);
    }
}

#[test]
fn bit_operations_are_isolated() {
    for bit in 0..8u8 {
        let mut memory = InternalMemory::default();
        memory.write(0x25, 0xA5);
        memory.set_bit_addressable(0x25, bit);
        assert_eq!(memory.read(0x25), 0xA5 | (1 << bit));
        memory.reset_bit_addressable(0x25, bit);
        assert_eq!(memory.read(0x25), 0xA5 & !(1 << bit));
        memory.complement_bit_addressable(0x25, bit);
        assert_eq!(memory.read(0x25), 0xA5 | (1 << bit));
        assert!(memory.get_bit_status(0x25, bit));
        memory.operate_bit_addressable_registers(0x25, bit, BitOperator::ComplementBit);
        assert!(!memory.get_bit_status(0x25, bit));
        assert_eq!(memory.read(0x24), 0);
        assert_eq!(memory.read(0x26), 0);
    }
    let mut memory = InternalMemory::default();
    memory.operate_bit_addressable_memory(0x0B, BitOperator::SetBit);
    assert_eq!(memory.read(0x21), 0x08);
    memory.operate_bit_addressable_memory(0xFF, BitOperator::SetBit);
    assert_eq!(memory.read(0x3F), 0x80);
    memory.operate_bit_addressable_memory(0x0B, BitOperator::ResetBit);
    assert_eq!(memory.read(0x21), 0x00);
}

#[test]
fn active_bank_window_follows_the_status_word() {
    let mut sim = Sim8051::default();
    sim.mov(0xD0, 0x10);
    {
        let bank = sim.get_active_register_bank();
        bank.ptr[3] = 0x42;
    }
    assert_eq!(sim.internal_memory.read(19), 0x42);
    assert_eq!(sim.active_bank_index(), 2);
    sim.mov(0xD0, 0xFF);
    assert_eq!(sim.active_bank_index(), 3);
    assert_eq!(sim.internal_memory.read(19), 0x42);
}

#[test]
fn flags_live_in_the_status_word() {
    let mut sim = Sim8051::default();
    sim.set_carry_bit(true);
    assert_eq!(sim.status_word(), 0x80);
    sim.set_auxiliary_carry_bit(true);
    assert_eq!(sim.status_word(), 0xC0);
    sim.set_overflow_bit(true);
    assert_eq!(sim.status_word(), 0xC4);
    sim.set_parity_bit(0x01);
    assert_eq!(sim.status_word(), 0xC5);
    sim.set_parity_bit(0x03);
    assert_eq!(sim.status_word(), 0xC4);
    sim.set_carry_bit(false);
    sim.set_auxiliary_carry_bit(false);
    sim.set_overflow_bit(false);
    assert_eq!(sim.status_word(), 0x00);
    sim.mov(0xD0, 0xA1);
    assert_eq!(sim.flag_values(), [true, false, true, false, false, false, false, true]);
    assert_eq!(sim.sfr_values(), [0xA1, 0, 0, 0, 0, 0, 0]);
}

#[test]
fn parity_counts_one_bits() {
    for value in 0..=255u8 {
        assert_eq!(parity(value), value.count_ones() % 2 == 1);
    }
}

#[test]
fn arithmetic_matches_wide_arithmetic() {
    for a in [0u8, 1, 0x0F, 0x10, 0x7F, 0x80, 0xFE, 0xFF] {
        for b in [0u8, 1, 0x0F, 0x10, 0x7F, 0x80, 0xFE, 0xFF] {
            for c in [false, true] {
                let mut sim = Sim8051::default();
                sim.mov(0xE0, a);
                sim.add_with(b, c);
                let wide = a as u16 + b as u16 + c as u16;
                assert_eq!(sim.accumulator(), wide as u8);
                assert_eq!(sim.carry(), wide > 0xFF);
                let signed = a as i8 as i16 + b as i8 as i16 + c as i16;
                assert_eq!(sim.overflow(), !(-128..=127).contains(&signed));
                let mut sim = Sim8051::default();
                sim.mov(0xE0, a);
                sim.subtract_with(b, c);
                let diff = a as i16 - b as i16 - c as i16;
                assert_eq!(sim.accumulator(), diff as u8);
                assert_eq!(sim.carry(), diff < 0);
                let signed = a as i8 as i16 - b as i8 as i16 - c as i16;
                assert_eq!(sim.overflow(), !(-128..=127).contains(&signed));
                assert_eq!(sim.auxiliary_carry(), ((a & 0xF) as i16) < (b & 0xF) as i16 + c as i16);
            }
        }
    }
}
