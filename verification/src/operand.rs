use vstd::prelude::*;
use vstd::string::*;
use crate::lexer::{TokenType, TokenView};
use crate::machine::{
    bit_location, register_address, register_named, sfr_addr, sfr_address, sfr_named, ScratchpadRegisters,
    Sim8051, ACC_ADDR, BIT_SPACE_BASE, CARRY_BIT, PSW_ADDR, SFR,
};
use crate::text::bytes_eq;

verus! {

/// An operand of a statement: its token, and whether `/` stood before it.
#[derive(Clone, Debug, PartialEq, Eq)]
pub struct Operand {
    pub token: TokenType,
    pub negated: bool,
}

/// What an operand is, with names as byte sequences.
pub ghost struct OperandView {
    pub token: TokenView,
    pub negated: bool,
}

impl View for Operand {
    type V = OperandView;

    open spec fn view(&self) -> OperandView {
        OperandView { token: self.token@, negated: self.negated }
    }
}

impl OperandView {
    /// Whether the operand is the plain identifier `word`.
    pub open spec fn names(self, word: Seq<u8>) -> bool {
        !self.negated && self.token == TokenView::Id(word)
    }

    /// The name that the operand gives as a jump target: any plain
    /// identifier.
    pub open spec fn target(self) -> Option<Seq<u8>> {
        match self.token {
            TokenView::Id(name) => if self.negated {
                None
            } else {
                Some(name)
            },
            _ => None,
        }
    }
}

/// The address that a name stands for: a scratchpad register of the active
/// bank, the accumulator under the name `A`, or a special-function register.
pub open spec fn named_address(mem: Seq<u8>, name: Seq<u8>) -> Option<u8> {
    match register_named(name) {
        Some(reg) => Some(register_address(mem, reg)),
        None => if name == "A".spec_bytes() {
            Some(ACC_ADDR)
        } else {
            match sfr_named(name) {
                Some(sfr) => Some(sfr_address(sfr)),
                None => None,
            }
        },
    }
}

/// The address an operand designates, where it designates one. A
/// hexadecimal literal is a direct address and must fit the memory; a name
/// is a register; an indirect register designates the address held in the
/// register. An immediate value, a bit address and a complemented operand
/// designate no address.
pub open spec fn address_of(mem: Seq<u8>, op: OperandView) -> Option<u8> {
    if op.negated {
        None
    } else {
        match op.token {
            TokenView::Hex(direct) => if direct <= 0xFF {
                Some(direct as u8)
            } else {
                None
            },
            TokenView::Id(name) => named_address(mem, name),
            TokenView::Ind(reg) => Some(mem[register_address(mem, reg) as int]),
            _ => None,
        }
    }
}

/// The byte an operand stands for, where it stands for one: an immediate
/// value that fits a byte, or the byte stored at the address the operand
/// designates.
pub open spec fn value_of(mem: Seq<u8>, op: OperandView) -> Option<u8> {
    match op.token {
        TokenView::Imm(value) => if !op.negated && value <= 0xFF {
            Some(value as u8)
        } else {
            None
        },
        _ => match address_of(mem, op) {
            Some(addr) => Some(mem[addr as int]),
            None => None,
        },
    }
}

/// The bit a token designates, as the address of its byte and the index
/// within the byte: a hexadecimal literal numbers a bit of the
/// bit-addressable memory, a bit address names a bit of a special-function
/// register, and `C` is the carry flag.
pub open spec fn bit_place(token: TokenView) -> Option<(u8, u8)> {
    match token {
        TokenView::Hex(number) => if number <= 0xFF {
            Some(bit_location(number as u8))
        } else {
            None
        },
        TokenView::BitAddr(sfr, bit) => if bit < 8 {
            Some((sfr_address(sfr), bit))
        } else {
            None
        },
        TokenView::Id(name) => if name == "C".spec_bytes() {
            Some((PSW_ADDR, CARRY_BIT))
        } else {
            None
        },
        _ => None,
    }
}

impl Operand {
    /// Whether the operand is the plain identifier `word`.
    pub fn names(&self, word: &[u8]) -> (r: bool)
        ensures
            r == self@.names(word@),
    {
        if self.negated {
            return false;
        }
        match &self.token {
            TokenType::ID(name) => {
                let same = bytes_eq(name.as_slice(), word);
                assert(same == (self.token@ == TokenView::Id(word@)));
                same
            },
            _ => false,
        }
    }

    /// The name that the operand gives as a jump target, if it gives one.
    pub fn target(&self) -> (r: Option<&Vec<u8>>)
        ensures
            match r {
                Some(name) => self@.target() == Some(name@),
                None => self@.target() is None,
            },
    {
        match &self.token {
            TokenType::ID(name) => if self.negated {
                None
            } else {
                Some(name)
            },
            _ => None,
        }
    }

    /// The bit that the operand's token designates, if it designates one:
    /// the address of its byte and the index within the byte.
    pub fn retrieve_bit(&self) -> (r: Option<(u8, u8)>)
        ensures
            r == bit_place(self@.token),
            r matches Some((_, bit)) ==> bit < 8,
    {
        match &self.token {
            TokenType::HEX(number) => if *number <= 0xFF {
                let pos = *number as u8;
                Some((BIT_SPACE_BASE + pos / 8, pos % 8))
            } else {
                None
            },
            TokenType::BIT_ADDR(sfr, bit) => if *bit < 8 {
                Some((sfr_addr(sfr), *bit))
            } else {
                None
            },
            TokenType::ID(name) => if bytes_eq(name.as_slice(), "C".as_bytes()) {
                Some((PSW_ADDR, CARRY_BIT))
            } else {
                None
            },
            _ => None,
        }
    }
}

impl Sim8051 {
    /// The address that `name` stands for, if it stands for one.
    pub fn address_named(&self, name: &[u8]) -> (r: Option<u8>)
        ensures
            r == named_address(self@, name@),
    {
        match ScratchpadRegisters::from_name(name) {
            Some(reg) => Some(self.register_addr(&reg)),
            None => if bytes_eq(name, "A".as_bytes()) {
                Some(ACC_ADDR)
            } else {
                match SFR::from_name(name) {
                    Some(sfr) => Some(sfr_addr(&sfr)),
                    None => None,
                }
            },
        }
    }

    /// The address that an operand designates, if it designates one.
    pub fn retrieve_lvalue(&self, op: &Operand) -> (r: Option<u8>)
        ensures
            r == address_of(self@, op@),
    {
        if op.negated {
            return None;
        }
        match &op.token {
            TokenType::HEX(direct) => if *direct <= 0xFF {
                Some(*direct as u8)
            } else {
                None
            },
            TokenType::ID(name) => self.address_named(name.as_slice()),
            TokenType::IND(reg) => {
                let pointer = self.register_addr(reg);
                Some(self.internal_memory.read(pointer))
            },
            _ => None,
        }
    }

    /// The byte that an operand stands for, if it stands for one.
    pub fn retrieve_rvalue(&self, op: &Operand) -> (r: Option<u8>)
        ensures
            r == value_of(self@, op@),
    {
        match &op.token {
            TokenType::IMM(value) => if !op.negated && *value <= 0xFF {
                Some(*value as u8)
            } else {
                None
            },
            _ => match self.retrieve_lvalue(op) {
                Some(addr) => Some(self.internal_memory.read(addr)),
                None => None,
            },
        }
    }
}

/// The instructions, by mnemonic.
#[derive(Clone, Copy, Debug, PartialEq, Eq, Structural)]
pub enum Mnemonic {
    Mov,
    Add,
    Addc,
    Subb,
    Anl,
    Orl,
    Xrl,
    Jb,
    Jnb,
    Djnz,
    Cjne,
    Clr,
    Cpl,
    Setb,
    Swap,
    Rl,
    Rr,
    Rlc,
    Rrc,
    Jc,
    Jnc,
    Jz,
    Jnz,
    Dec,
    Inc,
    Ajmp,
    Acall,
    Push,
    Pop,
    Mul,
    Div,
    Ret,
    Nop,
    End,
    /// Any name that is no mnemonic.
    Unknown,
}

/// The instruction that a name stands for. Mnemonics are written in lower
/// case and matched exactly.
pub open spec fn mnemonic_named(name: Seq<u8>) -> Mnemonic {
    if name == "mov".spec_bytes() {
        Mnemonic::Mov
    } else if name == "add".spec_bytes() {
        Mnemonic::Add
    } else if name == "addc".spec_bytes() {
        Mnemonic::Addc
    } else if name == "subb".spec_bytes() {
        Mnemonic::Subb
    } else if name == "anl".spec_bytes() {
        Mnemonic::Anl
    } else if name == "orl".spec_bytes() {
        Mnemonic::Orl
    } else if name == "xrl".spec_bytes() {
        Mnemonic::Xrl
    } else if name == "jb".spec_bytes() {
        Mnemonic::Jb
    } else if name == "jnb".spec_bytes() {
        Mnemonic::Jnb
    } else if name == "djnz".spec_bytes() {
        Mnemonic::Djnz
    } else if name == "cjne".spec_bytes() {
        Mnemonic::Cjne
    } else if name == "clr".spec_bytes() {
        Mnemonic::Clr
    } else if name == "cpl".spec_bytes() {
        Mnemonic::Cpl
    } else if name == "setb".spec_bytes() {
        Mnemonic::Setb
    } else if name == "swap".spec_bytes() {
        Mnemonic::Swap
    } else if name == "rl".spec_bytes() {
        Mnemonic::Rl
    } else if name == "rr".spec_bytes() {
        Mnemonic::Rr
    } else if name == "rlc".spec_bytes() {
        Mnemonic::Rlc
    } else if name == "rrc".spec_bytes() {
        Mnemonic::Rrc
    } else if name == "jc".spec_bytes() {
        Mnemonic::Jc
    } else if name == "jnc".spec_bytes() {
        Mnemonic::Jnc
    } else if name == "jz".spec_bytes() {
        Mnemonic::Jz
    } else if name == "jnz".spec_bytes() {
        Mnemonic::Jnz
    } else if name == "dec".spec_bytes() {
        Mnemonic::Dec
    } else if name == "inc".spec_bytes() {
        Mnemonic::Inc
    } else if name == "ajmp".spec_bytes() {
        Mnemonic::Ajmp
    } else if name == "acall".spec_bytes() {
        Mnemonic::Acall
    } else if name == "push".spec_bytes() {
        Mnemonic::Push
    } else if name == "pop".spec_bytes() {
        Mnemonic::Pop
    } else if name == "mul".spec_bytes() {
        Mnemonic::Mul
    } else if name == "div".spec_bytes() {
        Mnemonic::Div
    } else if name == "ret".spec_bytes() {
        Mnemonic::Ret
    } else if name == "nop".spec_bytes() {
        Mnemonic::Nop
    } else if name == "end".spec_bytes() {
        Mnemonic::End
    } else {
        Mnemonic::Unknown
    }
}

impl Mnemonic {
    /// The instruction that `name` stands for.
    pub fn from_name(name: &[u8]) -> (mnemonic: Mnemonic)
        ensures
            mnemonic == mnemonic_named(name@),
    {
        if bytes_eq(name, "mov".as_bytes()) {
            Mnemonic::Mov
        } else if bytes_eq(name, "add".as_bytes()) {
            Mnemonic::Add
        } else if bytes_eq(name, "addc".as_bytes()) {
            Mnemonic::Addc
        } else if bytes_eq(name, "subb".as_bytes()) {
            Mnemonic::Subb
        } else if bytes_eq(name, "anl".as_bytes()) {
            Mnemonic::Anl
        } else if bytes_eq(name, "orl".as_bytes()) {
            Mnemonic::Orl
        } else if bytes_eq(name, "xrl".as_bytes()) {
            Mnemonic::Xrl
        } else if bytes_eq(name, "jb".as_bytes()) {
            Mnemonic::Jb
        } else if bytes_eq(name, "jnb".as_bytes()) {
            Mnemonic::Jnb
        } else if bytes_eq(name, "djnz".as_bytes()) {
            Mnemonic::Djnz
        } else if bytes_eq(name, "cjne".as_bytes()) {
            Mnemonic::Cjne
        } else if bytes_eq(name, "clr".as_bytes()) {
            Mnemonic::Clr
        } else if bytes_eq(name, "cpl".as_bytes()) {
            Mnemonic::Cpl
        } else if bytes_eq(name, "setb".as_bytes()) {
            Mnemonic::Setb
        } else if bytes_eq(name, "swap".as_bytes()) {
            Mnemonic::Swap
        } else if bytes_eq(name, "rl".as_bytes()) {
            Mnemonic::Rl
        } else if bytes_eq(name, "rr".as_bytes()) {
            Mnemonic::Rr
        } else if bytes_eq(name, "rlc".as_bytes()) {
            Mnemonic::Rlc
        } else if bytes_eq(name, "rrc".as_bytes()) {
            Mnemonic::Rrc
        } else if bytes_eq(name, "jc".as_bytes()) {
            Mnemonic::Jc
        } else if bytes_eq(name, "jnc".as_bytes()) {
            Mnemonic::Jnc
        } else if bytes_eq(name, "jz".as_bytes()) {
            Mnemonic::Jz
        } else if bytes_eq(name, "jnz".as_bytes()) {
            Mnemonic::Jnz
        } else if bytes_eq(name, "dec".as_bytes()) {
            Mnemonic::Dec
        } else if bytes_eq(name, "inc".as_bytes()) {
            Mnemonic::Inc
        } else if bytes_eq(name, "ajmp".as_bytes()) {
            Mnemonic::Ajmp
        } else if bytes_eq(name, "acall".as_bytes()) {
            Mnemonic::Acall
        } else if bytes_eq(name, "push".as_bytes()) {
            Mnemonic::Push
        } else if bytes_eq(name, "pop".as_bytes()) {
            Mnemonic::Pop
        } else if bytes_eq(name, "mul".as_bytes()) {
            Mnemonic::Mul
        } else if bytes_eq(name, "div".as_bytes()) {
            Mnemonic::Div
        } else if bytes_eq(name, "ret".as_bytes()) {
            Mnemonic::Ret
        } else if bytes_eq(name, "nop".as_bytes()) {
            Mnemonic::Nop
        } else if bytes_eq(name, "end".as_bytes()) {
            Mnemonic::End
        } else {
            Mnemonic::Unknown
        }
    }
}

} // verus!
