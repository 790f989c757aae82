use vstd::prelude::*;
use crate::bits::{lemma_shift_forms, lemma_with_bit, odd_parity};
use crate::error::ErrorKind;
use crate::machine::{
    flag, with_flag, Sim8051, ACC_ADDR, AUX_CARRY_BIT, B_ADDR, CARRY_BIT, OVERFLOW_BIT, PARITY_BIT,
    PSW_ADDR, SP_ADDR,
};

verus! {

/// What an eight-bit addition or subtraction yields: the byte and the three
/// flags it decides.
pub ghost struct Arith {
    pub value: u8,
    pub carry: bool,
    pub aux: bool,
    pub overflow: bool,
}

/// `a + b + carry_in` in eight bits. Carry is the carry out of bit 7,
/// auxiliary carry the carry out of bit 3, and overflow is set when the carry
/// into bit 7 differs from the carry out of it.
pub open spec fn add_bytes(a: u8, b: u8, carry_in: bool) -> Arith {
    let c: int = if carry_in { 1 } else { 0 };
    Arith {
        value: ((a + b + c) % 256) as u8,
        carry: a + b + c > 255,
        aux: a % 16 + b % 16 + c > 15,
        overflow: (a % 128 + b % 128 + c > 127) != (a + b + c > 255),
    }
}

/// `a - b - borrow_in` in eight bits. Carry is the borrow out of bit 7,
/// auxiliary carry the borrow out of bit 3, and overflow is set when the
/// borrow into bit 7 differs from the borrow out of it.
pub open spec fn sub_bytes(a: u8, b: u8, borrow_in: bool) -> Arith {
    let c: int = if borrow_in { 1 } else { 0 };
    Arith {
        value: ((a - b - c) % 256) as u8,
        carry: a < b + c,
        aux: a % 16 < b % 16 + c,
        overflow: (a % 128 < b % 128 + c) != (a < b + c),
    }
}

/// The parity flag made to agree with the accumulator.
pub open spec fn settle_parity(mem: Seq<u8>) -> Seq<u8> {
    with_flag(mem, PARITY_BIT, odd_parity(mem[ACC_ADDR as int]))
}

/// The parity flag agrees with the accumulator: it is set exactly when the
/// accumulator holds an odd number of one-bits.
pub open spec fn parity_settled(mem: Seq<u8>) -> bool {
    flag(mem, PARITY_BIT) == odd_parity(mem[ACC_ADDR as int])
}

/// Settling the parity makes the parity flag agree with the accumulator and
/// changes no byte but the program status word.
pub proof fn lemma_settle_parity(mem: Seq<u8>)
    requires
        mem.len() == 256,
    ensures
        parity_settled(settle_parity(mem)),
        settle_parity(mem).len() == 256,
        forall|addr: int| 0 <= addr < 256 && addr != PSW_ADDR ==> settle_parity(mem)[addr] == mem[addr],
{
    lemma_with_bit(mem[PSW_ADDR as int], PARITY_BIT, odd_parity(mem[ACC_ADDR as int]));
}

/// An arithmetic result stored: the byte in the accumulator, then carry,
/// auxiliary carry, overflow and parity in the program status word.
pub open spec fn store_arith(mem: Seq<u8>, r: Arith) -> Seq<u8> {
    with_flag(
        with_flag(
            with_flag(with_flag(mem.update(ACC_ADDR as int, r.value), CARRY_BIT, r.carry), AUX_CARRY_BIT, r.aux),
            OVERFLOW_BIT,
            r.overflow,
        ),
        PARITY_BIT,
        odd_parity(r.value),
    )
}

/// Memory after `mul AB`: the low byte of the product in the accumulator, the
/// high byte in register B, carry cleared, overflow set when the product does
/// not fit in one byte.
pub open spec fn after_mul(mem: Seq<u8>) -> Seq<u8> {
    let product = mem[ACC_ADDR as int] * mem[B_ADDR as int];
    let stored = mem.update(ACC_ADDR as int, (product % 256) as u8).update(
        B_ADDR as int,
        (product / 256) as u8,
    );
    settle_parity(with_flag(with_flag(stored, CARRY_BIT, false), OVERFLOW_BIT, product > 255))
}

/// Memory after `div AB`: with a zero divisor only the flags change, carry
/// cleared and overflow set; otherwise the quotient goes to the accumulator
/// and the remainder to register B, with carry and overflow cleared.
pub open spec fn after_div(mem: Seq<u8>) -> Seq<u8> {
    let a = mem[ACC_ADDR as int];
    let b = mem[B_ADDR as int];
    if b == 0 {
        with_flag(with_flag(mem, CARRY_BIT, false), OVERFLOW_BIT, true)
    } else {
        settle_parity(
            with_flag(
                with_flag(
                    mem.update(ACC_ADDR as int, (a / b) as u8).update(B_ADDR as int, (a % b) as u8),
                    CARRY_BIT,
                    false,
                ),
                OVERFLOW_BIT,
                false,
            ),
        )
    }
}

/// The byte after `value`, wrapping from 255 to 0.
pub open spec fn successor(value: u8) -> u8 {
    ((value + 1) % 256) as u8
}

/// The byte before `value`, wrapping from 0 to 255.
pub open spec fn predecessor(value: u8) -> u8 {
    ((value - 1) % 256) as u8
}

/// Memory after `push`: the stack pointer moves up by one, then the byte at
/// `addr` is stored where it points.
pub open spec fn after_push(mem: Seq<u8>, addr: u8) -> Seq<u8> {
    let raised = mem.update(SP_ADDR as int, successor(mem[SP_ADDR as int]));
    raised.update(raised[SP_ADDR as int] as int, raised[addr as int])
}

/// Memory after `pop`: the byte that the stack pointer points at is stored at
/// `addr`, then the stack pointer moves down by one.
pub open spec fn after_pop(mem: Seq<u8>, addr: u8) -> Seq<u8> {
    let loaded = mem.update(addr as int, mem[mem[SP_ADDR as int] as int]);
    loaded.update(SP_ADDR as int, predecessor(loaded[SP_ADDR as int]))
}

/// The accumulator with its two nibbles exchanged.
pub open spec fn swapped(value: u8) -> u8 {
    ((value % 16) * 16 + value / 16) as u8
}

/// The accumulator rotated left by one bit.
pub open spec fn rotated_left(value: u8) -> u8 {
    ((value * 2) % 256 + value / 128) as u8
}

/// The accumulator rotated right by one bit.
pub open spec fn rotated_right(value: u8) -> u8 {
    (value / 2 + (value % 2) * 128) as u8
}

/// Memory after `rlc A`: the accumulator shifts left, the old carry enters at
/// bit 0 and the old bit 7 becomes the carry.
pub open spec fn after_rlc(mem: Seq<u8>) -> Seq<u8> {
    let a = mem[ACC_ADDR as int];
    let c: int = if flag(mem, CARRY_BIT) { 1 } else { 0 };
    with_flag(mem, CARRY_BIT, a >= 128).update(ACC_ADDR as int, ((a * 2) % 256 + c) as u8)
}

/// Memory after `rrc A`: the accumulator shifts right, the old carry enters
/// at bit 7 and the old bit 0 becomes the carry.
pub open spec fn after_rrc(mem: Seq<u8>) -> Seq<u8> {
    let a = mem[ACC_ADDR as int];
    let c: int = if flag(mem, CARRY_BIT) { 1 } else { 0 };
    with_flag(mem, CARRY_BIT, a % 2 == 1).update(ACC_ADDR as int, (a / 2 + c * 128) as u8)
}

/// The three bitwise operations of the logic instructions.
#[derive(Clone, Copy, Debug, PartialEq, Eq, Structural)]
pub enum LogicOp {
    And,
    Or,
    Xor,
}

impl LogicOp {
    /// The operation on two bytes, bit by bit.
    pub open spec fn on_bytes(self, a: u8, b: u8) -> u8 {
        match self {
            LogicOp::And => a & b,
            LogicOp::Or => a | b,
            LogicOp::Xor => a ^ b,
        }
    }

    /// The operation on two single bits.
    pub open spec fn on_bits(self, a: bool, b: bool) -> bool {
        match self {
            LogicOp::And => a && b,
            LogicOp::Or => a || b,
            LogicOp::Xor => a != b,
        }
    }

    /// Applies the operation to two bytes.
    pub fn apply_bytes(&self, a: u8, b: u8) -> (r: u8)
        ensures
            r == self.on_bytes(a, b),
    {
        match self {
            LogicOp::And => a & b,
            LogicOp::Or => a | b,
            LogicOp::Xor => a ^ b,
        }
    }

    /// Applies the operation to two bits.
    pub fn apply_bits(&self, a: bool, b: bool) -> (r: bool)
        ensures
            r == self.on_bits(a, b),
    {
        match self {
            LogicOp::And => a && b,
            LogicOp::Or => a || b,
            LogicOp::Xor => a != b,
        }
    }
}

impl Sim8051 {
    /// The accumulator.
    pub fn accumulator(&self) -> (value: u8)
        ensures
            value == self@[ACC_ADDR as int],
    {
        self.internal_memory.read(ACC_ADDR)
    }

    /// Register B.
    pub fn register_b(&self) -> (value: u8)
        ensures
            value == self@[B_ADDR as int],
    {
        self.internal_memory.read(B_ADDR)
    }

    /// Makes the parity flag agree with the accumulator.
    pub fn refresh_parity(&mut self)
        ensures
            final(self)@ == settle_parity(old(self)@),
            parity_settled(final(self)@),
    {
        proof {
            lemma_settle_parity(self@);
        }
        let a = self.accumulator();
        self.set_parity_bit(a);
    }

    /// Adds `operand` and `carry_in` to the accumulator and sets carry,
    /// auxiliary carry, overflow and parity from the sum.
    pub fn add_with(&mut self, operand: u8, carry_in: bool)
        ensures
            final(self)@ == store_arith(old(self)@, add_bytes(old(self)@[ACC_ADDR as int], operand, carry_in)),
    {
        let a = self.accumulator();
        let c: u16 = if carry_in { 1 } else { 0 };
        let sum: u16 = a as u16 + operand as u16 + c;
        let value: u8 = (sum % 256) as u8;
        let carry = sum > 255;
        let aux = (a % 16) as u16 + (operand % 16) as u16 + c > 15;
        let into_msb = (a % 128) as u16 + (operand % 128) as u16 + c > 127;
        self.store_result(value, carry, aux, into_msb != carry);
    }

    /// Subtracts `operand` and `borrow_in` from the accumulator and sets
    /// carry, auxiliary carry, overflow and parity from the difference.
    pub fn subtract_with(&mut self, operand: u8, borrow_in: bool)
        ensures
            final(self)@ == store_arith(old(self)@, sub_bytes(old(self)@[ACC_ADDR as int], operand, borrow_in)),
    {
        let a = self.accumulator();
        let c: u16 = if borrow_in { 1 } else { 0 };
        let taken: u16 = operand as u16 + c;
        let borrow = (a as u16) < taken;
        let value: u8 = if borrow {
            (256 + a as u16 - taken) as u8
        } else {
            (a as u16 - taken) as u8
        };
        assert(value == sub_bytes(a, operand, borrow_in).value) by {
            let d: int = a - operand - c;
            if borrow {
                assert(-256 <= d < 0);
                assert(d % 256 == d + 256);
            } else {
                assert(0 <= d < 256);
                assert(d % 256 == d);
            }
        }
        let aux = ((a % 16) as u16) < (operand % 16) as u16 + c;
        let into_msb = ((a % 128) as u16) < (operand % 128) as u16 + c;
        self.store_result(value, borrow, aux, into_msb != borrow);
    }

    /// Stores an arithmetic result: the byte in the accumulator and the four
    /// flags in the program status word.
    fn store_result(&mut self, value: u8, carry: bool, aux: bool, overflow: bool)
        ensures
            final(self)@ == store_arith(old(self)@, Arith { value, carry, aux, overflow }),
    {
        self.mov(ACC_ADDR, value);
        self.set_carry_bit(carry);
        self.set_auxiliary_carry_bit(aux);
        self.set_overflow_bit(overflow);
        self.set_parity_bit(value);
    }

    /// `add A,operand`.
    pub fn add(&mut self, operand: u8)
        ensures
            final(self)@ == store_arith(old(self)@, add_bytes(old(self)@[ACC_ADDR as int], operand, false)),
    {
        self.add_with(operand, false);
    }

    /// `addc A,operand`: addition that takes the carry flag in.
    pub fn addc(&mut self, operand: u8)
        ensures
            final(self)@ == store_arith(
                old(self)@,
                add_bytes(old(self)@[ACC_ADDR as int], operand, flag(old(self)@, CARRY_BIT)),
            ),
    {
        let c = self.carry();
        self.add_with(operand, c);
    }

    /// `subb A,operand`: subtraction that takes the carry flag in as a borrow.
    pub fn subb(&mut self, operand: u8)
        ensures
            final(self)@ == store_arith(
                old(self)@,
                sub_bytes(old(self)@[ACC_ADDR as int], operand, flag(old(self)@, CARRY_BIT)),
            ),
    {
        let c = self.carry();
        self.subtract_with(operand, c);
    }

    /// `mul AB`.
    pub fn mul_ab(&mut self)
        ensures
            final(self)@ == after_mul(old(self)@),
    {
        let a = self.accumulator();
        let b = self.register_b();
        assert(a * b <= 255 * 255) by (nonlinear_arith)
            requires
                a <= 255,
                b <= 255,
        ;
        let product: u16 = a as u16 * b as u16;
        self.mov(ACC_ADDR, (product % 256) as u8);
        self.mov(B_ADDR, (product / 256) as u8);
        self.set_carry_bit(false);
        self.set_overflow_bit(product > 255);
        self.refresh_parity();
    }

    /// `div AB`. A zero divisor is reported; the accumulator and register B
    /// then keep their values.
    pub fn div_ab(&mut self) -> (r: Result<(), ErrorKind>)
        ensures
            final(self)@ == after_div(old(self)@),
            r is Err <==> old(self)@[B_ADDR as int] == 0,
            r is Err ==> r == Err::<(), ErrorKind>(ErrorKind::DivisionByZero),
    {
        let a = self.accumulator();
        let b = self.register_b();
        self.set_carry_bit(false);
        if b == 0 {
            self.set_overflow_bit(true);
            Err(ErrorKind::DivisionByZero)
        } else {
            self.set_overflow_bit(false);
            self.mov(ACC_ADDR, a / b);
            self.mov(B_ADDR, a % b);
            self.refresh_parity();
            Ok(())
        }
    }

    /// `inc`: adds one to the byte at `addr`, wrapping from 255 to 0.
    pub fn increment(&mut self, addr: u8)
        ensures
            final(self)@ == old(self)@.update(addr as int, successor(old(self)@[addr as int])),
    {
        let v = self.internal_memory.read(addr);
        self.mov(addr, if v == 255 { 0 } else { v + 1 });
    }

    /// `dec`: takes one from the byte at `addr`, wrapping from 0 to 255.
    pub fn decrement(&mut self, addr: u8)
        ensures
            final(self)@ == old(self)@.update(addr as int, predecessor(old(self)@[addr as int])),
    {
        let v = self.internal_memory.read(addr);
        self.mov(addr, if v == 0 { 255 } else { v - 1 });
    }

    /// `push`: raises the stack pointer, then stores the byte at `addr` where
    /// it points.
    pub fn push(&mut self, addr: u8)
        ensures
            final(self)@ == after_push(old(self)@, addr),
    {
        self.increment(SP_ADDR);
        let sp = self.internal_memory.read(SP_ADDR);
        let v = self.internal_memory.read(addr);
        self.mov(sp, v);
    }

    /// `pop`: loads the byte that the stack pointer points at into `addr`,
    /// then lowers the stack pointer.
    pub fn pop(&mut self, addr: u8)
        ensures
            final(self)@ == after_pop(old(self)@, addr),
    {
        let sp = self.internal_memory.read(SP_ADDR);
        let v = self.internal_memory.read(sp);
        self.mov(addr, v);
        self.decrement(SP_ADDR);
    }

    /// `swap A`: exchanges the nibbles of the accumulator.
    pub fn swap_nibbles(&mut self)
        ensures
            final(self)@ == old(self)@.update(ACC_ADDR as int, swapped(old(self)@[ACC_ADDR as int])),
    {
        let val = self.accumulator();
        proof {
            lemma_shift_forms(val);
        }
        self.mov(ACC_ADDR, ((val & 0x0F) << 4) | ((val & 0xF0) >> 4));
    }

    /// `rl A`: rotates the accumulator left by one bit.
    pub fn rotate_left(&mut self)
        ensures
            final(self)@ == old(self)@.update(ACC_ADDR as int, rotated_left(old(self)@[ACC_ADDR as int])),
    {
        let val = self.accumulator();
        proof {
            lemma_shift_forms(val);
        }
        self.mov(ACC_ADDR, ((val & 0x80) >> 7) | (val << 1));
    }

    /// `rr A`: rotates the accumulator right by one bit.
    pub fn rotate_right(&mut self)
        ensures
            final(self)@ == old(self)@.update(ACC_ADDR as int, rotated_right(old(self)@[ACC_ADDR as int])),
    {
        let val = self.accumulator();
        proof {
            lemma_shift_forms(val);
        }
        self.mov(ACC_ADDR, ((val & 0x01) << 7) | (val >> 1));
    }

    /// `rlc A`: rotates the accumulator left through the carry flag.
    pub fn rotate_left_through_carry(&mut self)
        ensures
            final(self)@ == after_rlc(old(self)@),
    {
        let cflag: u8 = if self.carry() { 1 } else { 0 };
        let val = self.accumulator();
        proof {
            lemma_shift_forms(val);
        }
        self.set_carry_bit(val >> 7 == 1);
        self.mov(ACC_ADDR, (val << 1) | cflag);
    }

    /// `rrc A`: rotates the accumulator right through the carry flag.
    pub fn rotate_right_through_carry(&mut self)
        ensures
            final(self)@ == after_rrc(old(self)@),
    {
        let cflag: u8 = if self.carry() { 0x80 } else { 0 };
        let val = self.accumulator();
        proof {
            lemma_shift_forms(val);
        }
        self.set_carry_bit(val & 0x01 == 1);
        self.mov(ACC_ADDR, (val >> 1) | cflag);
    }

    /// `anl`, `orl` or `xrl` with the accumulator as destination.
    pub fn logic_on_accumulator(&mut self, op: LogicOp, operand: u8)
        ensures
            final(self)@ == old(self)@.update(
                ACC_ADDR as int,
                op.on_bytes(old(self)@[ACC_ADDR as int], operand),
            ),
    {
        let a = self.accumulator();
        self.mov(ACC_ADDR, op.apply_bytes(a, operand));
    }

    /// `anl`, `orl` or `xrl` with the carry flag as destination.
    pub fn logic_on_carry(&mut self, op: LogicOp, operand: bool)
        ensures
            final(self)@ == with_flag(old(self)@, CARRY_BIT, op.on_bits(operand, flag(old(self)@, CARRY_BIT))),
    {
        let c = self.carry();
        self.set_carry_bit(op.apply_bits(operand, c));
    }

    /// The comparison of `cjne`: sets the carry flag when `left` is less than
    /// `right` and clears it otherwise.
    pub fn compare(&mut self, left: u8, right: u8)
        ensures
            final(self)@ == with_flag(old(self)@, CARRY_BIT, left < right),
    {
        self.set_carry_bit(left < right);
    }
}

} // verus!
