use vstd::prelude::*;
use vstd::string::*;
use crate::text::bytes_eq;
use crate::bits::{
    bit_of, flip_bit, lemma_bank_bits, lemma_bits_determine_byte, lemma_flip_bit, lemma_with_bit, odd_parity,
    parity, with_bit,
};
use crate::error::ErrorKind;

verus! {

/// Address of the accumulator.
pub const ACC_ADDR: u8 = 0xE0;

/// Address of register B.
pub const B_ADDR: u8 = 0xF0;

/// Address of the program status word.
pub const PSW_ADDR: u8 = 0xD0;

/// Address of the stack pointer.
pub const SP_ADDR: u8 = 0x81;

/// Bit of the program status word that holds the carry flag.
pub const CARRY_BIT: u8 = 7;

/// Bit of the program status word that holds the auxiliary carry flag.
pub const AUX_CARRY_BIT: u8 = 6;

/// Bit of the program status word that holds the overflow flag.
pub const OVERFLOW_BIT: u8 = 2;

/// Bit of the program status word that holds the parity flag.
pub const PARITY_BIT: u8 = 0;

/// First byte of the bit-addressable general memory.
pub const BIT_SPACE_BASE: u8 = 0x20;

/// The registers among the special-function registers.
#[derive(Clone, Copy, Debug, PartialEq, Eq, Structural)]
pub enum IRegs {
    SP,
    DPTR,
    PSW,
    ACC,
    B,
    IP,
}

/// The four I/O ports.
#[derive(Clone, Copy, Debug, PartialEq, Eq, Structural)]
pub enum Ports {
    P0,
    P1,
    P2,
    P3,
}

/// A special-function register: the closed set of named bytes in the upper
/// half of the memory image.
#[derive(Clone, Copy, Debug, PartialEq, Eq, Structural)]
pub enum SFR {
    Reg(IRegs),
    Port(Ports),
}

/// The scratchpad registers of a register bank.
#[derive(Clone, Copy, Debug, PartialEq, Eq, Structural)]
pub enum ScratchpadRegisters {
    R0,
    R1,
    R2,
    R3,
    R4,
    R5,
    R6,
    R7,
}

/// The fixed address of a special-function register.
pub open spec fn sfr_address(sfr: SFR) -> u8 {
    match sfr {
        SFR::Port(Ports::P0) => 0x80,
        SFR::Port(Ports::P1) => 0x90,
        SFR::Port(Ports::P2) => 0xA0,
        SFR::Port(Ports::P3) => 0xB0,
        SFR::Reg(IRegs::ACC) => 0xE0,
        SFR::Reg(IRegs::B) => 0xF0,
        SFR::Reg(IRegs::PSW) => 0xD0,
        SFR::Reg(IRegs::IP) => 0xB8,
        SFR::Reg(IRegs::DPTR) => 0x82,
        SFR::Reg(IRegs::SP) => 0x81,
    }
}

/// The fixed address of a special-function register. For the data pointer
/// this is the address of its low byte.
pub fn sfr_addr(sfr: &SFR) -> (addr: u8)
    ensures
        addr == sfr_address(*sfr),
        addr >= 0x80,
{
    match sfr {
        SFR::Port(x) => match x {
            Ports::P0 => 0x80,
            Ports::P1 => 0x90,
            Ports::P2 => 0xA0,
            Ports::P3 => 0xB0,
        },
        SFR::Reg(reg) => match reg {
            IRegs::ACC => 0xE0,
            IRegs::B => 0xF0,
            IRegs::PSW => 0xD0,
            IRegs::IP => 0xB8,
            IRegs::DPTR => 0x82,
            IRegs::SP => 0x81,
        },
    }
}

/// The special-function register that a name stands for. Names are matched
/// exactly and with their case; any other name stands for none.
pub open spec fn sfr_named(name: Seq<u8>) -> Option<SFR> {
    if name == "P0".spec_bytes() {
        Some(SFR::Port(Ports::P0))
    } else if name == "P1".spec_bytes() {
        Some(SFR::Port(Ports::P1))
    } else if name == "P2".spec_bytes() {
        Some(SFR::Port(Ports::P2))
    } else if name == "P3".spec_bytes() {
        Some(SFR::Port(Ports::P3))
    } else if name == "ACC".spec_bytes() {
        Some(SFR::Reg(IRegs::ACC))
    } else if name == "B".spec_bytes() {
        Some(SFR::Reg(IRegs::B))
    } else if name == "PSW".spec_bytes() {
        Some(SFR::Reg(IRegs::PSW))
    } else if name == "SP".spec_bytes() {
        Some(SFR::Reg(IRegs::SP))
    } else if name == "DPTR".spec_bytes() {
        Some(SFR::Reg(IRegs::DPTR))
    } else if name == "IP".spec_bytes() {
        Some(SFR::Reg(IRegs::IP))
    } else {
        None
    }
}

/// The scratchpad register that a name stands for: `R0` to `R7`, matched
/// exactly.
pub open spec fn register_named(name: Seq<u8>) -> Option<ScratchpadRegisters> {
    if name == "R0".spec_bytes() {
        Some(ScratchpadRegisters::R0)
    } else if name == "R1".spec_bytes() {
        Some(ScratchpadRegisters::R1)
    } else if name == "R2".spec_bytes() {
        Some(ScratchpadRegisters::R2)
    } else if name == "R3".spec_bytes() {
        Some(ScratchpadRegisters::R3)
    } else if name == "R4".spec_bytes() {
        Some(ScratchpadRegisters::R4)
    } else if name == "R5".spec_bytes() {
        Some(ScratchpadRegisters::R5)
    } else if name == "R6".spec_bytes() {
        Some(ScratchpadRegisters::R6)
    } else if name == "R7".spec_bytes() {
        Some(ScratchpadRegisters::R7)
    } else {
        None
    }
}

impl SFR {
    /// The special-function register that `name` stands for, if any.
    pub fn from_name(name: &[u8]) -> (sfr: Option<SFR>)
        ensures
            sfr == sfr_named(name@),
    {
        if bytes_eq(name, "P0".as_bytes()) {
            Some(SFR::Port(Ports::P0))
        } else if bytes_eq(name, "P1".as_bytes()) {
            Some(SFR::Port(Ports::P1))
        } else if bytes_eq(name, "P2".as_bytes()) {
            Some(SFR::Port(Ports::P2))
        } else if bytes_eq(name, "P3".as_bytes()) {
            Some(SFR::Port(Ports::P3))
        } else if bytes_eq(name, "ACC".as_bytes()) {
            Some(SFR::Reg(IRegs::ACC))
        } else if bytes_eq(name, "B".as_bytes()) {
            Some(SFR::Reg(IRegs::B))
        } else if bytes_eq(name, "PSW".as_bytes()) {
            Some(SFR::Reg(IRegs::PSW))
        } else if bytes_eq(name, "SP".as_bytes()) {
            Some(SFR::Reg(IRegs::SP))
        } else if bytes_eq(name, "DPTR".as_bytes()) {
            Some(SFR::Reg(IRegs::DPTR))
        } else if bytes_eq(name, "IP".as_bytes()) {
            Some(SFR::Reg(IRegs::IP))
        } else {
            None
        }
    }
}

impl core::str::FromStr for SFR {
    type Err = ();

    fn from_str(input: &str) -> (sfr: Result<SFR, ()>)
        ensures
            sfr == match sfr_named(input.spec_bytes()) {
                Some(found) => Ok::<SFR, ()>(found),
                None => Err::<SFR, ()>(()),
            },
    {
        match SFR::from_name(input.as_bytes()) {
            Some(sfr) => Ok(sfr),
            None => Err(()),
        }
    }
}

impl core::str::FromStr for ScratchpadRegisters {
    type Err = ();

    fn from_str(input: &str) -> (reg: Result<ScratchpadRegisters, ()>)
        ensures
            reg == match register_named(input.spec_bytes()) {
                Some(found) => Ok::<ScratchpadRegisters, ()>(found),
                None => Err::<ScratchpadRegisters, ()>(()),
            },
    {
        match ScratchpadRegisters::from_name(input.as_bytes()) {
            Some(reg) => Ok(reg),
            None => Err(()),
        }
    }
}

impl ScratchpadRegisters {
    /// The index of the register within its bank.
    pub open spec fn index(self) -> u8 {
        match self {
            ScratchpadRegisters::R0 => 0,
            ScratchpadRegisters::R1 => 1,
            ScratchpadRegisters::R2 => 2,
            ScratchpadRegisters::R3 => 3,
            ScratchpadRegisters::R4 => 4,
            ScratchpadRegisters::R5 => 5,
            ScratchpadRegisters::R6 => 6,
            ScratchpadRegisters::R7 => 7,
        }
    }

    /// The scratchpad register that `name` stands for, if any.
    pub fn from_name(name: &[u8]) -> (reg: Option<ScratchpadRegisters>)
        ensures
            reg == register_named(name@),
    {
        if bytes_eq(name, "R0".as_bytes()) {
            Some(ScratchpadRegisters::R0)
        } else if bytes_eq(name, "R1".as_bytes()) {
            Some(ScratchpadRegisters::R1)
        } else if bytes_eq(name, "R2".as_bytes()) {
            Some(ScratchpadRegisters::R2)
        } else if bytes_eq(name, "R3".as_bytes()) {
            Some(ScratchpadRegisters::R3)
        } else if bytes_eq(name, "R4".as_bytes()) {
            Some(ScratchpadRegisters::R4)
        } else if bytes_eq(name, "R5".as_bytes()) {
            Some(ScratchpadRegisters::R5)
        } else if bytes_eq(name, "R6".as_bytes()) {
            Some(ScratchpadRegisters::R6)
        } else if bytes_eq(name, "R7".as_bytes()) {
            Some(ScratchpadRegisters::R7)
        } else {
            None
        }
    }

    /// The index of the register within its bank, `0` for R0 up to `7` for R7.
    pub fn reg_count(&self) -> (count: u8)
        ensures
            count == self.index(),
            count < 8,
    {
        match self {
            Self::R0 => 0,
            Self::R1 => 1,
            Self::R2 => 2,
            Self::R3 => 3,
            Self::R4 => 4,
            Self::R5 => 5,
            Self::R6 => 6,
            Self::R7 => 7,
        }
    }
}

/// The register bank that a program status word selects: its bits 4 and 3.
pub open spec fn bank_of(psw: u8) -> u8 {
    ((psw / 8) % 4) as u8
}

/// The register bank that is active in a memory image.
pub open spec fn active_bank(mem: Seq<u8>) -> u8 {
    bank_of(mem[PSW_ADDR as int])
}

/// The address of a scratchpad register in the active bank.
pub open spec fn register_address(mem: Seq<u8>, reg: ScratchpadRegisters) -> u8 {
    (8 * active_bank(mem) + reg.index()) as u8
}

/// Where a bit of the bit-addressable general memory lives: the byte and the
/// bit within it.
pub open spec fn bit_location(pos: u8) -> (u8, u8) {
    ((BIT_SPACE_BASE + pos / 8) as u8, pos % 8)
}

/// `after` is `before` with the bytes from `start` on replaced by `window`.
pub open spec fn window_replaced(before: Seq<u8>, start: int, window: Seq<u8>, after: Seq<u8>) -> bool {
    &&& after.len() == before.len()
    &&& forall|i: int|
        0 <= i < before.len() ==> after[i] == if start <= i < start + window.len() {
            window[i - start]
        } else {
            before[i]
        }
}

/// The three single-bit operations of the bit-addressable space.
#[derive(Clone, Copy, Debug, PartialEq, Eq, Structural)]
pub enum BitOperator {
    SetBit,
    ResetBit,
    ComplementBit,
}

impl BitOperator {
    /// What the operation makes of a byte when applied to one of its bits.
    pub open spec fn apply(self, value: u8, bit: u8) -> u8 {
        match self {
            BitOperator::SetBit => with_bit(value, bit, true),
            BitOperator::ResetBit => with_bit(value, bit, false),
            BitOperator::ComplementBit => flip_bit(value, bit),
        }
    }

    /// What the operation makes of a byte when applied to each of its
    /// `count` lowest bits in turn, bit 0 first.
    pub open spec fn apply_below(self, value: u8, count: nat) -> u8
        decreases count,
    {
        if count == 0 {
            value
        } else {
            self.apply(self.apply_below(value, (count - 1) as nat), (count - 1) as u8)
        }
    }

    /// What the operation makes of a byte when applied to all eight bits:
    /// setting gives all ones, clearing gives zero, and complementing gives
    /// the complement of the byte.
    pub open spec fn on_all_bits(self, value: u8) -> u8 {
        match self {
            BitOperator::SetBit => 255u8,
            BitOperator::ResetBit => 0u8,
            BitOperator::ComplementBit => (255 - value) as u8,
        }
    }
}

/// Applying a bit operation to the eight bits of a byte one after the other
/// gives what the operation makes of the whole byte.
pub proof fn lemma_apply_to_all_bits(operator: BitOperator, value: u8)
    ensures
        operator.apply_below(value, 8) == operator.on_all_bits(value),
{
    reveal_with_fuel(BitOperator::apply_below, 9);
    assert((((((((value | (1u8 << 0u8)) | (1u8 << 1u8)) | (1u8 << 2u8)) | (1u8 << 3u8)) | (1u8 << 4u8)) | (1u8
        << 5u8)) | (1u8 << 6u8)) | (1u8 << 7u8) == 255u8) by (bit_vector);
    assert((((((((value & !(1u8 << 0u8)) & !(1u8 << 1u8)) & !(1u8 << 2u8)) & !(1u8 << 3u8)) & !(1u8 << 4u8))
        & !(1u8 << 5u8)) & !(1u8 << 6u8)) & !(1u8 << 7u8) == 0u8) by (bit_vector);
    assert((((((((value ^ (1u8 << 0u8)) ^ (1u8 << 1u8)) ^ (1u8 << 2u8)) ^ (1u8 << 3u8)) ^ (1u8 << 4u8)) ^ (1u8
        << 5u8)) ^ (1u8 << 6u8)) ^ (1u8 << 7u8) == 255 - value) by (bit_vector);
}

/// The eight bytes of `memory` from `start` on, borrowed for writing.
fn bank_window(memory: &mut [u8; 256], start: usize) -> (window: &mut [u8])
    requires
        start + 8 <= 256,
    ensures
        window@ == old(memory)@.subrange(start as int, start + 8),
        final(window)@.len() == 8,
        window_replaced(old(memory)@, start as int, final(window)@, final(memory)@),
{
    let ghost before = memory@;
    let whole: &mut [u8] = memory;
    let (head, rest) = whole.split_at_mut(start);
    let (window, tail) = rest.split_at_mut(8);
    proof {
        let after = head@ + (final(window)@ + tail@);
        assert(final(head)@ == head@);
        assert(final(tail)@ == tail@);
        assert(head@.len() == start);
        assert(tail@.len() == 256 - start - 8);
        assert(window@ =~= before.subrange(start as int, start + 8));
        assert(after.len() == start + final(window)@.len() + tail@.len());
        assert((final(window)@ + tail@).len() == final(window)@.len() + tail@.len());
    }
    window
}

/// A window onto the eight bytes of one register bank. It borrows the bytes
/// from the memory image: what is written through it is written to memory.
pub struct RegisterBank<'a> {
    pub ptr: &'a mut [u8],
}

impl<'a> RegisterBank<'a> {
    /// Sets every register of the bank to zero.
    pub fn clear(&mut self)
        ensures
            final(self).ptr@.len() == old(self).ptr@.len(),
            forall|i: int| 0 <= i < old(self).ptr@.len() ==> final(self).ptr@[i] == 0,
            final(final(self).ptr)@ == final(old(self).ptr)@,
    {
        let n = self.ptr.len();
        let mut i: usize = 0;
        while i < n
            invariant
                n == self.ptr@.len(),
                n == old(self).ptr@.len(),
                i <= n,
                forall|j: int| 0 <= j < i ==> self.ptr@[j] == 0,
                final(self.ptr)@ == final(old(self).ptr)@,
            decreases n - i,
        {
            self.ptr[i] = 0;
            i += 1;
        }
    }
}

/// The 256 bytes of on-chip memory: four register banks, the bit-addressable
/// bytes, general-purpose memory and the special-function registers.
pub struct InternalMemory {
    pub memory: [u8; 256],
}

impl View for InternalMemory {
    type V = Seq<u8>;

    open spec fn view(&self) -> Seq<u8> {
        self.memory@
    }
}

impl Default for InternalMemory {
    fn default() -> (mem: InternalMemory)
        ensures
            mem@ == Seq::new(256, |i: int| 0u8),
    {
        let mem = InternalMemory { memory: [0x00;256] };
        assert(mem@ =~= Seq::new(256, |i: int| 0u8));
        mem
    }
}

impl InternalMemory {
    /// The byte at `addr`.
    pub fn read(&self, addr: u8) -> (value: u8)
        ensures
            value == self@[addr as int],
    {
        self.memory[addr as usize]
    }

    /// Stores `value` at `addr` and touches no other byte.
    pub fn write(&mut self, addr: u8, value: u8)
        ensures
            final(self)@ == old(self)@.update(addr as int, value),
    {
        self.memory[addr as usize] = value;
    }

    /// A window onto register bank `n`. A selector outside `0..4` is
    /// rejected and leaves the memory as it was.
    pub fn get_register_bank(&mut self, n: u8) -> (bank: Result<RegisterBank<'_>, ErrorKind>)
        ensures
            bank is Ok <==> n < 4,
            bank matches Ok(b) ==> b.ptr@ == old(self)@.subrange(8 * n, 8 * n + 8),
            bank matches Ok(b) ==> final(b.ptr)@.len() == 8,
            bank matches Ok(b) ==> window_replaced(old(self)@, 8 * n, final(b.ptr)@, final(self)@),
            bank matches Err(e) ==> e == ErrorKind::BankOutOfRange && final(self)@ == old(self)@,
    {
        if n >= 4 {
            return Err(ErrorKind::BankOutOfRange);
        }
        let start: usize = n as usize * 8;
        Ok(RegisterBank { ptr: bank_window(&mut self.memory, start) })
    }

    /// Applies `operator` to bit `pos` of the bit-addressable general memory,
    /// which is bit `pos % 8` of the byte at `0x20 + pos / 8`.
    pub fn operate_bit_addressable_memory(&mut self, pos: u8, operator: BitOperator)
        ensures
            final(self)@ == old(self)@.update(
                bit_location(pos).0 as int,
                operator.apply(old(self)@[bit_location(pos).0 as int], bit_location(pos).1),
            ),
    {
        self.operate_bit_addressable_registers(BIT_SPACE_BASE + pos / 8, pos % 8, operator);
    }

    /// Applies `operator` to bit `bit` of the byte at `pos`.
    pub fn operate_bit_addressable_registers(&mut self, pos: u8, bit: u8, operator: BitOperator)
        requires
            bit < 8,
        ensures
            final(self)@ == old(self)@.update(pos as int, operator.apply(old(self)@[pos as int], bit)),
    {
        match operator {
            BitOperator::SetBit => self.set_bit_addressable(pos, bit),
            BitOperator::ResetBit => self.reset_bit_addressable(pos, bit),
            BitOperator::ComplementBit => self.complement_bit_addressable(pos, bit),
        }
    }

    /// Sets bit `bit` of the byte at `pos`.
    pub fn set_bit_addressable(&mut self, pos: u8, bit: u8)
        requires
            bit < 8,
        ensures
            final(self)@ == old(self)@.update(pos as int, with_bit(old(self)@[pos as int], bit, true)),
    {
        self.memory[pos as usize] |= 1u8 << bit;
    }

    /// Clears bit `bit` of the byte at `pos`.
    pub fn reset_bit_addressable(&mut self, pos: u8, bit: u8)
        requires
            bit < 8,
        ensures
            final(self)@ == old(self)@.update(pos as int, with_bit(old(self)@[pos as int], bit, false)),
    {
        self.memory[pos as usize] &= !(1u8 << bit);
    }

    /// Inverts bit `bit` of the byte at `pos`.
    pub fn complement_bit_addressable(&mut self, pos: u8, bit: u8)
        requires
            bit < 8,
        ensures
            final(self)@ == old(self)@.update(pos as int, flip_bit(old(self)@[pos as int], bit)),
    {
        self.memory[pos as usize] ^= 1u8 << bit;
    }

    /// Whether bit `bit` of the byte at `pos` is set.
    pub fn get_bit_status(&self, pos: u8, bit: u8) -> (set: bool)
        requires
            bit < 8,
        ensures
            set == bit_of(self@[pos as int], bit),
    {
        self.memory[pos as usize] & (1u8 << bit) != 0
    }

    /// Whether bit `pos` of the bit-addressable general memory is set.
    pub fn get_bit_status_addr_memory(&self, pos: u8) -> (set: bool)
        ensures
            set == bit_of(self@[bit_location(pos).0 as int], bit_location(pos).1),
    {
        self.get_bit_status(BIT_SPACE_BASE + pos / 8, pos % 8)
    }
}

/// Whether a flag of the program status word is set in a memory image.
pub open spec fn flag(mem: Seq<u8>, bit: u8) -> bool {
    bit_of(mem[PSW_ADDR as int], bit)
}

/// A memory image with one flag of its program status word forced to `on`.
pub open spec fn with_flag(mem: Seq<u8>, bit: u8, on: bool) -> Seq<u8> {
    mem.update(PSW_ADDR as int, with_bit(mem[PSW_ADDR as int], bit, on))
}

/// The eight bytes of the register bank that is active in a memory image.
pub open spec fn active_bank_bytes(mem: Seq<u8>) -> Seq<u8> {
    mem.subrange(8 * active_bank(mem), 8 * active_bank(mem) + 8)
}

/// The simulated machine: its on-chip memory, in which the accumulator,
/// register B and the program status word live at their fixed addresses.
pub struct Sim8051 {
    pub internal_memory: InternalMemory,
}

impl View for Sim8051 {
    type V = Seq<u8>;

    open spec fn view(&self) -> Seq<u8> {
        self.internal_memory@
    }
}

impl Default for Sim8051 {
    fn default() -> (sim: Sim8051)
        ensures
            sim@ == Seq::new(256, |i: int| 0u8),
    {
        Sim8051 { internal_memory: InternalMemory::default() }
    }
}

impl Sim8051 {
    /// Stores the byte `src` at the address `dst`.
    pub fn mov(&mut self, dst: u8, src: u8)
        ensures
            final(self)@ == old(self)@.update(dst as int, src),
    {
        self.internal_memory.write(dst, src);
    }

    /// The number of the active register bank, bits 4 and 3 of the program
    /// status word.
    pub fn active_bank_index(&self) -> (bank: u8)
        ensures
            bank == active_bank(self@),
            bank < 4,
    {
        let psw = self.internal_memory.read(PSW_ADDR);
        proof {
            lemma_bank_bits(psw);
        }
        (0x18 & psw) >> 3
    }

    /// The address of a scratchpad register in the active bank: eight times
    /// the bank number plus the register's index.
    pub fn register_addr(&self, reg: &ScratchpadRegisters) -> (addr: u8)
        ensures
            addr == register_address(self@, *reg),
            addr == 8 * active_bank(self@) + reg.index(),
            addr < 32,
    {
        self.active_bank_index() * 8 + reg.reg_count()
    }

    /// A window onto the register bank that the program status word selects.
    pub fn get_active_register_bank(&mut self) -> (bank: RegisterBank<'_>)
        ensures
            bank.ptr@ == active_bank_bytes(old(self)@),
            final(bank.ptr)@.len() == 8,
            window_replaced(old(self)@, 8 * active_bank(old(self)@), final(bank.ptr)@, final(self)@),
    {
        let start: usize = self.active_bank_index() as usize * 8;
        RegisterBank { ptr: bank_window(&mut self.internal_memory.memory, start) }
    }

    /// The bytes R0 to R7 of the active register bank, in order, for display.
    pub fn show_scratchpad_registers(&self) -> (regs: [u8; 8])
        ensures
            regs@ == active_bank_bytes(self@),
    {
        let start: u8 = self.active_bank_index() * 8;
        let regs = [
            self.internal_memory.read(start),
            self.internal_memory.read(start + 1),
            self.internal_memory.read(start + 2),
            self.internal_memory.read(start + 3),
            self.internal_memory.read(start + 4),
            self.internal_memory.read(start + 5),
            self.internal_memory.read(start + 6),
            self.internal_memory.read(start + 7),
        ];
        assert(regs@ =~= active_bank_bytes(self@));
        regs
    }

    /// Applies `operator` to the eight bits of the accumulator one after the
    /// other, bit 0 first.
    pub fn operate_accumulator_bits(&mut self, operator: BitOperator)
        ensures
            final(self)@ == old(self)@.update(ACC_ADDR as int, operator.on_all_bits(old(self)@[ACC_ADDR as int])),
    {
        let ghost before = self@;
        let mut bit: u8 = 0;
        while bit < 8
            invariant
                bit <= 8,
                before.len() == 256,
                self@ == before.update(
                    ACC_ADDR as int,
                    operator.apply_below(before[ACC_ADDR as int], bit as nat),
                ),
            decreases 8 - bit,
        {
            self.internal_memory.operate_bit_addressable_registers(ACC_ADDR, bit, operator);
            bit += 1;
            assert(self@ =~= before.update(
                ACC_ADDR as int,
                operator.apply_below(before[ACC_ADDR as int], bit as nat),
            ));
        }
        proof {
            lemma_apply_to_all_bits(operator, before[ACC_ADDR as int]);
        }
    }

    /// Whether the flag at bit `bit` of the program status word is set.
    pub fn read_flag(&self, bit: u8) -> (set: bool)
        requires
            bit < 8,
        ensures
            set == flag(self@, bit),
    {
        self.internal_memory.get_bit_status(PSW_ADDR, bit)
    }

    /// Forces the flag at bit `bit` of the program status word to `set`.
    pub fn write_flag(&mut self, bit: u8, set: bool)
        requires
            bit < 8,
        ensures
            final(self)@ == with_flag(old(self)@, bit, set),
    {
        if set {
            self.internal_memory.set_bit_addressable(PSW_ADDR, bit);
        } else {
            self.internal_memory.reset_bit_addressable(PSW_ADDR, bit);
        }
    }

    /// Sets the parity flag to the parity of `val`: one when `val` holds an
    /// odd number of one-bits, zero otherwise.
    pub fn set_parity_bit(&mut self, val: u8)
        ensures
            final(self)@ == with_flag(old(self)@, PARITY_BIT, odd_parity(val)),
    {
        let odd = parity(val);
        self.write_flag(PARITY_BIT, odd);
    }

    /// Sets or clears the carry flag.
    pub fn set_carry_bit(&mut self, set: bool)
        ensures
            final(self)@ == with_flag(old(self)@, CARRY_BIT, set),
    {
        self.write_flag(CARRY_BIT, set);
    }

    /// Sets or clears the auxiliary carry flag.
    pub fn set_auxiliary_carry_bit(&mut self, set: bool)
        ensures
            final(self)@ == with_flag(old(self)@, AUX_CARRY_BIT, set),
    {
        self.write_flag(AUX_CARRY_BIT, set);
    }

    /// Sets or clears the overflow flag.
    pub fn set_overflow_bit(&mut self, set: bool)
        ensures
            final(self)@ == with_flag(old(self)@, OVERFLOW_BIT, set),
    {
        self.write_flag(OVERFLOW_BIT, set);
    }

    /// The carry flag.
    pub fn carry(&self) -> (set: bool)
        ensures
            set == flag(self@, CARRY_BIT),
    {
        self.read_flag(CARRY_BIT)
    }

    /// The auxiliary carry flag.
    pub fn auxiliary_carry(&self) -> (set: bool)
        ensures
            set == flag(self@, AUX_CARRY_BIT),
    {
        self.read_flag(AUX_CARRY_BIT)
    }

    /// The overflow flag.
    pub fn overflow(&self) -> (set: bool)
        ensures
            set == flag(self@, OVERFLOW_BIT),
    {
        self.read_flag(OVERFLOW_BIT)
    }

    /// The parity flag.
    pub fn parity_flag(&self) -> (set: bool)
        ensures
            set == flag(self@, PARITY_BIT),
    {
        self.read_flag(PARITY_BIT)
    }
}

/// A scratchpad register lives at eight times the bank number plus its own
/// index, whichever of the four banks the program status word selects.
/// Writing the program status word changes which eight bytes the active bank
/// shows and moves no other byte of memory.
pub proof fn lemma_bank_selection(mem: Seq<u8>, psw: u8, reg: ScratchpadRegisters)
    requires
        mem.len() == 256,
    ensures
        register_address(mem, reg) == 8 * active_bank(mem) + reg.index(),
        active_bank(mem) < 4,
        active_bank(mem.update(PSW_ADDR as int, psw)) == bank_of(psw),
        register_address(mem.update(PSW_ADDR as int, psw), reg) == 8 * bank_of(psw) + reg.index(),
        active_bank_bytes(mem.update(PSW_ADDR as int, psw)) == mem.subrange(
            8 * bank_of(psw),
            8 * bank_of(psw) + 8,
        ),
        forall|addr: int|
            0 <= addr < 256 && addr != PSW_ADDR ==> mem.update(PSW_ADDR as int, psw)[addr] == mem[addr],
{
    let switched = mem.update(PSW_ADDR as int, psw);
    assert(active_bank_bytes(switched) =~= mem.subrange(8 * bank_of(psw), 8 * bank_of(psw) + 8));
}

/// A byte written to any address is the byte read back from it, and every
/// other address keeps what it held.
pub proof fn lemma_write_then_read(mem: Seq<u8>, addr: u8, value: u8)
    requires
        mem.len() == 256,
    ensures
        mem.update(addr as int, value)[addr as int] == value,
        mem.update(addr as int, value).len() == 256,
        forall|other: int| 0 <= other < 256 && other != addr ==> mem.update(addr as int, value)[other] == mem[other],
{
}

/// A bit operation changes the bit it is applied to as its name says, and
/// leaves the other seven bits of the byte, and every other byte, as they
/// were.
pub proof fn lemma_bit_operation_is_isolated(mem: Seq<u8>, addr: u8, bit: u8, operator: BitOperator)
    requires
        mem.len() == 256,
        bit < 8,
    ensures
        ({
            let after = mem.update(addr as int, operator.apply(mem[addr as int], bit));
            &&& bit_of(after[addr as int], bit) == match operator {
                BitOperator::SetBit => true,
                BitOperator::ResetBit => false,
                BitOperator::ComplementBit => !bit_of(mem[addr as int], bit),
            }
            &&& forall|other: u8|
                other < 8 && other != bit ==> bit_of(after[addr as int], other) == bit_of(mem[addr as int], other)
            &&& forall|a: int| 0 <= a < 256 && a != addr ==> after[a] == mem[a]
        }),
{
    lemma_with_bit(mem[addr as int], bit, true);
    lemma_with_bit(mem[addr as int], bit, false);
    lemma_flip_bit(mem[addr as int], bit);
}

/// Setting a bit and then clearing it leaves that bit zero and the other
/// seven bits of the byte, and every other byte, as they were.
pub proof fn lemma_set_then_reset_bit(mem: Seq<u8>, addr: u8, bit: u8)
    requires
        mem.len() == 256,
        bit < 8,
    ensures
        ({
            let set = mem.update(addr as int, BitOperator::SetBit.apply(mem[addr as int], bit));
            let reset = set.update(addr as int, BitOperator::ResetBit.apply(set[addr as int], bit));
            &&& !bit_of(reset[addr as int], bit)
            &&& forall|other: u8| other < 8 && other != bit ==> bit_of(reset[addr as int], other) == bit_of(mem[addr as int], other)
            &&& forall|a: int| 0 <= a < 256 && a != addr ==> reset[a] == mem[a]
            &&& reset == mem.update(addr as int, with_bit(mem[addr as int], bit, false))
        }),
{
    let before = mem[addr as int];
    let high = with_bit(before, bit, true);
    let low = with_bit(high, bit, false);
    lemma_with_bit(before, bit, true);
    lemma_with_bit(high, bit, false);
    lemma_with_bit(before, bit, false);
    assert forall|other: u8| other < 8 implies bit_of(low, other) == bit_of(
        with_bit(before, bit, false),
        other,
    ) by {
        if other != bit {
            assert(bit_of(with_bit(high, bit, false), other) == bit_of(high, other));
            assert(bit_of(with_bit(before, bit, true), other) == bit_of(before, other));
            assert(bit_of(with_bit(before, bit, false), other) == bit_of(before, other));
        }
    }
    lemma_bits_determine_byte(low, with_bit(before, bit, false));
    let set = mem.update(addr as int, high);
    let reset = set.update(addr as int, low);
    assert(reset =~= mem.update(addr as int, with_bit(before, bit, false)));
}

} // verus!
