use vstd::prelude::*;
use vstd::string::*;
use crate::assembler::{framed, start_spec, Assembler, Outcome};
use crate::bits::bit_of;
use crate::machine::{active_bank_bytes, Sim8051, ACC_ADDR, B_ADDR, PSW_ADDR};

verus! {

/// Address of port 0.
pub const P0_ADDR: u8 = 0x80;

/// Address of port 1.
pub const P1_ADDR: u8 = 0x90;

/// Address of port 2.
pub const P2_ADDR: u8 = 0xA0;

/// Address of port 3.
pub const P3_ADDR: u8 = 0xB0;

/// What a run leaves behind, as plain values: whether the program ran to
/// its end, the program status word, the special-function registers, the
/// active register bank and the whole memory image.
#[derive(Clone, Copy, Debug, PartialEq, Eq)]
pub struct AsmData {
    /// Whether the program ran to its end without being aborted.
    pub compiled: bool,
    /// The program status word.
    pub psw: u8,
    /// The program status word, the accumulator, register B and the ports
    /// 0 to 3, in this order.
    pub sfr_arr: [u8; 7],
    /// The registers R0 to R7 of the active bank.
    pub reg_arr: [u8; 8],
    /// The memory image.
    pub memory: [u8; 256],
}

/// The seven special-function registers that a report shows, in order: the
/// program status word, the accumulator, register B and the four ports.
pub open spec fn shown_registers(mem: Seq<u8>) -> Seq<u8> {
    seq![
        mem[PSW_ADDR as int],
        mem[ACC_ADDR as int],
        mem[B_ADDR as int],
        mem[P0_ADDR as int],
        mem[P1_ADDR as int],
        mem[P2_ADDR as int],
        mem[P3_ADDR as int],
    ]
}

/// The eight flags of a program status word, the highest bit first: carry,
/// auxiliary carry, F0, the two bank-select bits, overflow, the unused bit
/// and parity.
pub open spec fn shown_flags(psw: u8) -> Seq<bool> {
    Seq::new(8, |i: int| bit_of(psw, (7 - i) as u8))
}

impl Default for AsmData {
    fn default() -> (data: AsmData)
        ensures
            !data.compiled,
            data.psw == 0,
            data.sfr_arr@ == Seq::new(7, |i: int| 0u8),
            data.reg_arr@ == Seq::new(8, |i: int| 0u8),
            data.memory@ == Seq::new(256, |i: int| 0u8),
    {
        let data = AsmData { compiled: false, psw: 0, sfr_arr: [0;7], reg_arr: [0;8], memory: [0;256] };
        assert(data.sfr_arr@ =~= Seq::new(7, |i: int| 0u8));
        assert(data.reg_arr@ =~= Seq::new(8, |i: int| 0u8));
        assert(data.memory@ =~= Seq::new(256, |i: int| 0u8));
        data
    }
}

impl Sim8051 {
    /// The program status word.
    pub fn status_word(&self) -> (psw: u8)
        ensures
            psw == self@[PSW_ADDR as int],
    {
        self.internal_memory.read(PSW_ADDR)
    }

    /// The special-function registers that a report shows.
    pub fn sfr_values(&self) -> (values: [u8; 7])
        ensures
            values@ == shown_registers(self@),
    {
        let values = [
            self.internal_memory.read(PSW_ADDR),
            self.internal_memory.read(ACC_ADDR),
            self.internal_memory.read(B_ADDR),
            self.internal_memory.read(P0_ADDR),
            self.internal_memory.read(P1_ADDR),
            self.internal_memory.read(P2_ADDR),
            self.internal_memory.read(P3_ADDR),
        ];
        assert(values@ =~= shown_registers(self@));
        values
    }

    /// The eight flags of the program status word, the highest bit first.
    pub fn flag_values(&self) -> (flags: [bool; 8])
        ensures
            flags@ == shown_flags(self@[PSW_ADDR as int]),
    {
        let flags = [
            self.read_flag(7),
            self.read_flag(6),
            self.read_flag(5),
            self.read_flag(4),
            self.read_flag(3),
            self.read_flag(2),
            self.read_flag(1),
            self.read_flag(0),
        ];
        assert(flags@ =~= shown_flags(self@[PSW_ADDR as int]));
        flags
    }
}

impl Assembler {
    /// The state of the machine as plain values, marked with whether the
    /// run that led to it completed.
    pub fn snapshot(&self, compiled: bool) -> (data: AsmData)
        ensures
            data.compiled == compiled,
            data.psw == self@.mem[PSW_ADDR as int],
            data.sfr_arr@ == shown_registers(self@.mem),
            data.reg_arr@ == active_bank_bytes(self@.mem),
            data.memory@ == self@.mem,
    {
        AsmData {
            compiled,
            psw: self.simulator.status_word(),
            sfr_arr: self.simulator.sfr_values(),
            reg_arr: self.simulator.show_scratchpad_registers(),
            memory: self.simulator.internal_memory.memory,
        }
    }
}

/// Assembles and runs `src` for at most `max_steps` steps: the text is
/// framed with the start and end markers, run from cleared memory, and the
/// state it leaves is reported. The report is marked as compiled exactly
/// when the run completed.
pub fn assemble(src: &str, max_steps: u64) -> (data: AsmData)
    ensures
        ({
            let (last, outcome) = start_spec(framed(src.spec_bytes()), max_steps as nat);
            &&& data.compiled == (outcome == Outcome::Completed)
            &&& data.psw == last.mem[PSW_ADDR as int]
            &&& data.sfr_arr@ == shown_registers(last.mem)
            &&& data.reg_arr@ == active_bank_bytes(last.mem)
            &&& data.memory@ == last.mem
        }),
{
    let mut assembler = Assembler::new(Vec::new());
    assembler.read_src_from_string(src);
    assert(assembler@.text =~= src.spec_bytes());
    assembler.frame_source();
    let outcome = assembler.start(max_steps);
    let compiled = match outcome {
        Outcome::Completed => true,
        _ => false,
    };
    assembler.snapshot(compiled)
}

} // verus!
