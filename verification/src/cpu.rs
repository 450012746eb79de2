//! The micro-architected processor: registers, memory, and one
//! micro-operation per tick, dispatched on the sequence counter, the
//! interrupt flip-flop, the opcode and the indirect bit.
//!
//! Every executable step is proved equal to a specification-level
//! transition on `CpuV`, a mathematical snapshot of the whole
//! processor state.

use crate::message::Entry;
use crate::message::Level;
use crate::message::Messages;
use crate::registers::Registers;
use crate::text::all_hex_digits;
use crate::text::dec_str;
use crate::text::hex_value;
use crate::text::parse_hex_u16;
use crate::text::to_dec_string;
use vstd::prelude::*;

verus! {

/// The number of memory words.
pub open spec fn mem_size() -> int {
    4096
}

/// A mathematical snapshot of the processor: every register value and
/// the memory contents.
pub ghost struct CpuV {
    pub ar: u16,
    pub pc: u16,
    pub dr: u16,
    pub ac: u16,
    pub ir: u16,
    pub tr: u16,
    pub inpr: u16,
    pub outr: u16,
    pub sc: u16,
    pub e: u16,
    pub s: u16,
    pub r: u16,
    pub ien: u16,
    pub fgi: u16,
    pub fgo: u16,
    pub mem: Seq<u16>,
}

impl CpuV {
    /// Register values inside their widths and a full-size memory.
    pub open spec fn inv(self) -> bool {
        &&& self.ar <= 0xFFF
        &&& self.pc <= 0xFFF
        &&& self.inpr <= 0xFF
        &&& self.outr <= 0xFF
        &&& self.sc <= 7
        &&& self.e <= 1
        &&& self.s <= 1
        &&& self.r <= 1
        &&& self.ien <= 1
        &&& self.fgi <= 1
        &&& self.fgo <= 1
        &&& self.mem.len() == mem_size()
    }
}

/// The opcode: bits twelve to fourteen of the instruction register.
pub open spec fn opcode_of(ir: u16) -> u16 {
    ((ir as int / 0x1000) % 8) as u16
}

/// The indirect bit: bit fifteen of the instruction register.
pub open spec fn indirect_of(ir: u16) -> u16 {
    (ir as int / 0x8000) as u16
}

/// The address part: bits zero to eleven of the instruction register.
pub open spec fn low12(w: u16) -> u16 {
    (w as int % 0x1000) as u16
}

/// Whether bit `k` of `w` is set, read arithmetically.
pub open spec fn bit_set(w: u16, p: int) -> bool {
    (w as int / p) % 2 == 1
}

/// The lowest set bit among bits zero to eleven, or zero when none of
/// them is set: the operation selector of register-reference and
/// input-output instructions.
pub open spec fn instr_bit_of(ir: u16) -> u16 {
    if bit_set(ir, 0x1) {
        0
    } else if bit_set(ir, 0x2) {
        1
    } else if bit_set(ir, 0x4) {
        2
    } else if bit_set(ir, 0x8) {
        3
    } else if bit_set(ir, 0x10) {
        4
    } else if bit_set(ir, 0x20) {
        5
    } else if bit_set(ir, 0x40) {
        6
    } else if bit_set(ir, 0x80) {
        7
    } else if bit_set(ir, 0x100) {
        8
    } else if bit_set(ir, 0x200) {
        9
    } else if bit_set(ir, 0x400) {
        10
    } else if bit_set(ir, 0x800) {
        11
    } else {
        0
    }
}

/// The word at the address register, or zero outside memory.
pub open spec fn mem_read(v: CpuV) -> u16 {
    if v.ar < v.mem.len() {
        v.mem[v.ar as int]
    } else {
        0
    }
}

/// Memory with the word at the address register replaced, when that
/// address is inside memory.
pub open spec fn mem_written(v: CpuV, w: u16) -> Seq<u16> {
    if v.ar < v.mem.len() {
        v.mem.update(v.ar as int, w)
    } else {
        v.mem
    }
}

/// The interrupt cycle's three micro-steps.
pub open spec fn spec_interrupt(v: CpuV, t: u16) -> CpuV {
    if t == 0 {
        CpuV { ar: 0, tr: v.pc, sc: ((v.sc + 1) % 8) as u16, ..v }
    } else if t == 1 {
        CpuV { mem: mem_written(v, v.tr), pc: 0, sc: ((v.sc + 1) % 8) as u16, ..v }
    } else if t == 2 {
        CpuV { pc: ((v.pc + 1) % 0x1000) as u16, ien: 0, r: 0, sc: 0, ..v }
    } else {
        v
    }
}

/// The two fetch micro-steps.
pub open spec fn spec_fetch(v: CpuV, t: u16) -> CpuV {
    if t == 0 {
        CpuV { ar: low12(v.pc), sc: ((v.sc + 1) % 8) as u16, ..v }
    } else if t == 1 {
        CpuV {
            ir: mem_read(v),
            pc: ((v.pc + 1) % 0x1000) as u16,
            sc: ((v.sc + 1) % 8) as u16,
            ..v
        }
    } else {
        v
    }
}

/// Decode: the address register takes the instruction's address part.
pub open spec fn spec_decode(v: CpuV) -> CpuV {
    CpuV { ar: low12(v.ir), sc: ((v.sc + 1) % 8) as u16, ..v }
}

/// Indirect resolution: with the indirect bit set, the address
/// register takes the word it points at.
pub open spec fn spec_fetch_operand(v: CpuV, i: u16) -> CpuV {
    if i == 1 {
        CpuV { ar: low12(mem_read(v)), sc: ((v.sc + 1) % 8) as u16, ..v }
    } else {
        CpuV { sc: ((v.sc + 1) % 8) as u16, ..v }
    }
}

/// AND: read the operand, then conjoin it into the accumulator.
pub open spec fn spec_and(v: CpuV, t: u16) -> CpuV {
    if t == 4 {
        CpuV { dr: mem_read(v), sc: ((v.sc + 1) % 8) as u16, ..v }
    } else if t == 5 {
        CpuV { ac: v.ac & v.dr, sc: 0, ..v }
    } else {
        v
    }
}

/// ADD: read the operand, then add it with carry into the extend bit.
pub open spec fn spec_add(v: CpuV, t: u16) -> CpuV {
    if t == 4 {
        CpuV { dr: mem_read(v), sc: ((v.sc + 1) % 8) as u16, ..v }
    } else if t == 5 {
        CpuV {
            ac: ((v.ac + v.dr) % 0x10000) as u16,
            e: if v.ac + v.dr > 0xFFFF {
                1u16
            } else {
                0u16
            },
            sc: 0,
            ..v
        }
    } else {
        v
    }
}

/// LDA: read the operand, then load it into the accumulator.
pub open spec fn spec_lda(v: CpuV, t: u16) -> CpuV {
    if t == 4 {
        CpuV { dr: mem_read(v), sc: ((v.sc + 1) % 8) as u16, ..v }
    } else if t == 5 {
        CpuV { ac: v.dr, sc: 0, ..v }
    } else {
        v
    }
}

/// STA: store the accumulator.
pub open spec fn spec_sta(v: CpuV) -> CpuV {
    CpuV { mem: mem_written(v, v.ac), sc: 0, ..v }
}

/// BUN: jump to the address register.
pub open spec fn spec_bun(v: CpuV) -> CpuV {
    CpuV { pc: low12(v.ar), sc: 0, ..v }
}

/// BSA: save the return address, then jump past it.
pub open spec fn spec_bsa(v: CpuV, t: u16) -> CpuV {
    if t == 4 {
        CpuV {
            mem: mem_written(v, v.pc),
            ar: ((v.ar + 1) % 0x1000) as u16,
            sc: ((v.sc + 1) % 8) as u16,
            ..v
        }
    } else if t == 5 {
        CpuV { pc: low12(v.ar), sc: 0, ..v }
    } else {
        v
    }
}

/// ISZ: read, increment, write back, and skip when the result is zero.
pub open spec fn spec_isz(v: CpuV, t: u16) -> CpuV {
    if t == 4 {
        CpuV { dr: mem_read(v), sc: ((v.sc + 1) % 8) as u16, ..v }
    } else if t == 5 {
        CpuV { dr: ((v.dr + 1) % 0x10000) as u16, sc: ((v.sc + 1) % 8) as u16, ..v }
    } else if t == 6 {
        CpuV {
            mem: mem_written(v, v.dr),
            pc: if v.dr == 0 {
                ((v.pc + 1) % 0x1000) as u16
            } else {
                v.pc
            },
            sc: 0,
            ..v
        }
    } else {
        v
    }
}

/// A memory-reference instruction's micro-step for opcode `d` at
/// micro-time `t`.
pub open spec fn spec_execute_mri(v: CpuV, d: u16, t: u16) -> CpuV {
    if d == 0 {
        spec_and(v, t)
    } else if d == 1 {
        spec_add(v, t)
    } else if d == 2 {
        spec_lda(v, t)
    } else if d == 3 {
        spec_sta(v)
    } else if d == 4 {
        spec_bun(v)
    } else if d == 5 {
        spec_bsa(v, t)
    } else if d == 6 {
        spec_isz(v, t)
    } else {
        v
    }
}

/// A register-reference instruction selected by bit `b`, with the
/// sequence counter cleared afterwards.
pub open spec fn spec_execute_rri(v: CpuV, b: u16) -> CpuV {
    let w = if b == 11 {
        // CLA
        CpuV { ac: 0, ..v }
    } else if b == 10 {
        // CLE
        CpuV { e: 0, ..v }
    } else if b == 9 {
        // CMA
        CpuV { ac: (0xFFFF - v.ac) as u16, ..v }
    } else if b == 8 {
        // CME
        CpuV { e: (1 - v.e) as u16, ..v }
    } else if b == 7 {
        // CIR
        CpuV { ac: (v.ac as int / 2 + if v.e != 0 { 0x8000int } else { 0int }) as u16, e: (
        v.ac as int % 2) as u16, ..v }
    } else if b == 6 {
        // CIL
        CpuV {
            ac: ((2 * v.ac + v.e % 2) % 0x10000) as u16,
            e: if v.ac >= 0x8000 {
                1u16
            } else {
                0u16
            },
            ..v
        }
    } else if b == 5 {
        // INC
        CpuV { ac: ((v.ac + 1) % 0x10000) as u16, ..v }
    } else if b == 4 {
        // SPA
        CpuV {
            pc: if v.ac < 0x8000 {
                ((v.pc + 1) % 0x1000) as u16
            } else {
                v.pc
            },
            ..v
        }
    } else if b == 3 {
        // SNA
        CpuV {
            pc: if v.ac >= 0x8000 {
                ((v.pc + 1) % 0x1000) as u16
            } else {
                v.pc
            },
            ..v
        }
    } else if b == 2 {
        // SZA
        CpuV {
            pc: if v.ac == 0 {
                ((v.pc + 1) % 0x1000) as u16
            } else {
                v.pc
            },
            ..v
        }
    } else if b == 1 {
        // SZE
        CpuV {
            pc: if v.e == 0 {
                ((v.pc + 1) % 0x1000) as u16
            } else {
                v.pc
            },
            ..v
        }
    } else {
        // HLT
        CpuV { s: 0, ..v }
    };
    CpuV { sc: 0, ..w }
}

/// An input-output instruction selected by bit `b`, with the sequence
/// counter cleared afterwards. Only ION and IOF change state; the
/// device instructions are recognized but inert.
pub open spec fn spec_execute_io(v: CpuV, b: u16) -> CpuV {
    let w = if b == 7 {
        // ION
        CpuV { ien: 1, ..v }
    } else if b == 6 {
        // IOF
        CpuV { ien: 0, ..v }
    } else {
        v
    };
    CpuV { sc: 0, ..w }
}

/// What the interrupt cycle logs at micro-time `t`.
pub open spec fn interrupt_log(t: u16) -> Seq<Entry> {
    if t == 0 {
        seq![(Level::Debug, "INTERRUPT RT0 : AR <- 0, TR <- PC"@)]
    } else if t == 1 {
        seq![(Level::Debug, "INTERRUPT RT1 : M[AR] <- TR, PC <- 0"@)]
    } else if t == 2 {
        seq![(Level::Debug, "INTERRUPT RT2 : PC <- PC + 1, IEN <- 0, R <- 0, SC <- 0"@)]
    } else {
        Seq::empty()
    }
}

/// What the fetch micro-steps log.
pub open spec fn fetch_log(t: u16) -> Seq<Entry> {
    if t == 0 {
        seq![(Level::Debug, "FETCH R'T0 : AR <- PC"@)]
    } else if t == 1 {
        seq![(Level::Debug, "FETCH R'T1 : IR <- M[AR], PC <- PC + 1"@)]
    } else {
        Seq::empty()
    }
}

/// What indirect resolution logs.
pub open spec fn fetch_operand_log(i: u16) -> Seq<Entry> {
    if i == 1 {
        seq![(Level::Debug, "INDIRECT D7'IT3 : AR <- M[AR]"@)]
    } else {
        Seq::empty()
    }
}

/// What the AND micro-steps log.
pub open spec fn and_log(t: u16) -> Seq<Entry> {
    if t == 4 {
        seq![(Level::Debug, "AND D0T4 : DR <- M[AR]"@)]
    } else if t == 5 {
        seq![(Level::Debug, "AND D0T5 : AC <- AC & DR, SC <- 0"@)]
    } else {
        Seq::empty()
    }
}

/// What the ADD micro-steps log.
pub open spec fn add_log(t: u16) -> Seq<Entry> {
    if t == 4 {
        seq![(Level::Debug, "ADD D1T4 : DR <- M[AR]"@)]
    } else if t == 5 {
        seq![(Level::Debug, "ADD D1T5 : AC <- AC + DR, E <- Cout, SC <- 0"@)]
    } else {
        Seq::empty()
    }
}

/// What the LDA micro-steps log.
pub open spec fn lda_log(t: u16) -> Seq<Entry> {
    if t == 4 {
        seq![(Level::Debug, "LDA D2T4 : DR <- M[AR]"@)]
    } else if t == 5 {
        seq![(Level::Debug, "LDA D2T5 : AC <- DR, SC <- 0"@)]
    } else {
        Seq::empty()
    }
}

/// What the BSA micro-steps log.
pub open spec fn bsa_log(t: u16) -> Seq<Entry> {
    if t == 4 {
        seq![(Level::Debug, "BSA D5T4 : M[AR] <- PC, AR <- AR + 1"@)]
    } else if t == 5 {
        seq![(Level::Debug, "BSA D5T5 : PC <- AR, SC <- 0"@)]
    } else {
        Seq::empty()
    }
}

/// What the ISZ micro-steps log.
pub open spec fn isz_log(t: u16) -> Seq<Entry> {
    if t == 4 {
        seq![(Level::Debug, "ISZ D6T4 : DR <- M[AR]"@)]
    } else if t == 5 {
        seq![(Level::Debug, "ISZ D6T5 : DR <- DR + 1"@)]
    } else if t == 6 {
        seq![(Level::Debug, "ISZ D6T6 : M[AR] <- DR, if (DR = 0) then (PC <- PC + 1), SC <- 0"@)]
    } else {
        Seq::empty()
    }
}

/// What a memory-reference micro-step logs.
pub open spec fn mri_log(d: u16, t: u16) -> Seq<Entry> {
    if d == 0 {
        and_log(t)
    } else if d == 1 {
        add_log(t)
    } else if d == 2 {
        lda_log(t)
    } else if d == 3 {
        seq![(Level::Debug, "STA D3T4 : M[AR] <- AC, SC <- 0"@)]
    } else if d == 4 {
        seq![(Level::Debug, "BUN D4T4 : PC <- AR, SC <- 0"@)]
    } else if d == 5 {
        bsa_log(t)
    } else if d == 6 {
        isz_log(t)
    } else {
        Seq::empty()
    }
}

/// What a register-reference instruction logs; HLT follows its entry
/// with the halting error.
pub open spec fn rri_log(b: u16) -> Seq<Entry> {
    if b == 11 {
        seq![(Level::Debug, "CLA D7I'T3rB11 : AC <- 0, SC <- 0"@)]
    } else if b == 10 {
        seq![(Level::Debug, "CLE D7I'T3rB10 : E <- 0, SC <- 0"@)]
    } else if b == 9 {
        seq![(Level::Debug, "CMA D7I'T3rB9 : AC <- AC', SC <- 0"@)]
    } else if b == 8 {
        seq![(Level::Debug, "CME D7I'T3rB8 : E <- E', SC <- 0"@)]
    } else if b == 7 {
        seq![(Level::Debug, "CIR D7I'T3rB7 : AC <- shr AC, AC(15) <- E, E <- AC(0), SC <- 0"@)]
    } else if b == 6 {
        seq![(Level::Debug, "CIL D7I'T3rB6 : AC <- shl AC, AC(0) <- E, E <- AC(15), SC <- 0"@)]
    } else if b == 5 {
        seq![(Level::Debug, "INC D7I'T3rB5 : AC <- AC + 1, SC <- 0"@)]
    } else if b == 4 {
        seq![(Level::Debug, "SPA D7I'T3rB4 : if (AC(15) = 0) then (PC <- PC + 1), SC <- 0"@)]
    } else if b == 3 {
        seq![(Level::Debug, "SNA D7I'T3rB3 : if (AC(15) = 1) then (PC <- PC + 1), SC <- 0"@)]
    } else if b == 2 {
        seq![(Level::Debug, "SZA D7I'T3rB2 : if (AC = 0) then (PC <- PC + 1), SC <- 0"@)]
    } else if b == 1 {
        seq![(Level::Debug, "SZE D7I'T3rB1 : if (E = 0) then (PC <- PC + 1), SC <- 0"@)]
    } else {
        seq![
            (Level::Debug, "HLT D7I'T3rB0 : S <- 0, SC <- 0"@),
            (Level::Error, "Halting"@),
        ]
    }
}

/// What an input-output instruction logs.
pub open spec fn io_log(b: u16) -> Seq<Entry> {
    if b == 11 {
        seq![(Level::Debug, "INP :"@)]
    } else if b == 10 {
        seq![(Level::Debug, "OUT :"@)]
    } else if b == 9 {
        seq![(Level::Debug, "SKI :"@)]
    } else if b == 8 {
        seq![(Level::Debug, "SKO :"@)]
    } else if b == 7 {
        seq![(Level::Debug, "ION D7IT3pB7 : IEN <- 1, SC <- 0"@)]
    } else if b == 6 {
        seq![(Level::Debug, "IOF D7IT3pB6 : IEN <- 0, SC <- 0"@)]
    } else {
        seq![(Level::Error, "Unknown IO instruction: "@ + dec_str(b as int))]
    }
}

/// What one tick logs: the entries of the micro-step it selects.
pub open spec fn spec_tick_log(v: CpuV) -> Seq<Entry> {
    let t = v.sc;
    let r = v.r;
    let d = opcode_of(v.ir);
    let i = indirect_of(v.ir);
    if t < 3 && r == 1 {
        interrupt_log(t)
    } else if t < 2 && r == 0 {
        fetch_log(t)
    } else if t == 2 && r == 0 {
        seq![(Level::Debug, "DECODE R'T2 : AR <- IR(0-11)"@)]
    } else if t == 3 && d != 7 {
        fetch_operand_log(i)
    } else if t > 3 && d != 7 {
        mri_log(d, t)
    } else if t == 3 && d == 7 {
        if i == 1 {
            io_log(instr_bit_of(v.ir))
        } else {
            rri_log(instr_bit_of(v.ir))
        }
    } else {
        Seq::empty()
    }
}

/// One full tick: the micro-step selected by the sequence counter,
/// the interrupt flip-flop, the opcode and the indirect bit.
pub open spec fn spec_tick(v: CpuV) -> CpuV {
    let t = v.sc;
    let r = v.r;
    let d = opcode_of(v.ir);
    let i = indirect_of(v.ir);
    if t < 3 && r == 1 {
        spec_interrupt(v, t)
    } else if t < 2 && r == 0 {
        spec_fetch(v, t)
    } else if t == 2 && r == 0 {
        spec_decode(v)
    } else if t == 3 && d != 7 {
        spec_fetch_operand(v, i)
    } else if t > 3 && d != 7 {
        spec_execute_mri(v, d, t)
    } else if t == 3 && d == 7 {
        if i == 1 {
            spec_execute_io(v, instr_bit_of(v.ir))
        } else {
            spec_execute_rri(v, instr_bit_of(v.ir))
        }
    } else {
        v
    }
}

/// Loading a listing: each non-empty entry that parses as hexadecimal
/// and lies inside memory replaces the word at its own index.
pub open spec fn spec_load(mem: Seq<u16>, listing: Seq<Seq<char>>, upto: int) -> Seq<u16>
    decreases upto,
{
    if upto <= 0 || upto > listing.len() {
        mem
    } else {
        let done = spec_load(mem, listing, upto - 1);
        let entry = listing[upto - 1];
        if entry.len() > 0 && all_hex_digits(entry) && hex_value(entry) <= 0xFFFF && upto - 1
            < mem.len() {
            done.update(upto - 1, hex_value(entry) as u16)
        } else {
            done
        }
    }
}

/// The diagnostics the loader emits: one error for each non-empty
/// entry that does not parse as a sixteen-bit hexadecimal word, and
/// one for each word whose own index lies outside memory.
pub open spec fn spec_load_log(listing: Seq<Seq<char>>, upto: int) -> Seq<Entry>
    decreases upto,
{
    if upto <= 0 || upto > listing.len() {
        Seq::empty()
    } else {
        let done = spec_load_log(listing, upto - 1);
        let entry = listing[upto - 1];
        if entry.len() == 0 {
            done
        } else if !(all_hex_digits(entry) && hex_value(entry) <= 0xFFFF) {
            done.push((Level::Error, "Invalid instruction format: "@ + entry))
        } else if upto - 1 >= mem_size() {
            done.push(
                (Level::Error, "Instruction address "@ + dec_str(upto - 1) + " is outside memory"@),
            )
        } else {
            done
        }
    }
}

/// Loading never changes the memory's length.
pub proof fn lemma_spec_load_len(mem: Seq<u16>, listing: Seq<Seq<char>>, upto: int)
    ensures
        spec_load(mem, listing, upto).len() == mem.len(),
    decreases upto,
{
    if 0 < upto <= listing.len() {
        lemma_spec_load_len(mem, listing, upto - 1);
    }
}

/// Whether a listing entry parses as a sixteen-bit word.
pub open spec fn load_entry_valid(entry: Seq<char>) -> bool {
    entry.len() > 0 && all_hex_digits(entry) && hex_value(entry) <= 0xFFFF
}

/// The word at `j` after loading: the entry's value where the entry
/// is loadable and already processed, the old word otherwise.
pub proof fn lemma_spec_load_at(mem: Seq<u16>, listing: Seq<Seq<char>>, upto: int, j: int)
    requires
        0 <= j < mem.len(),
        upto <= listing.len(),
    ensures
        spec_load(mem, listing, upto)[j] == (if j < upto && load_entry_valid(listing[j]) {
            hex_value(listing[j]) as u16
        } else {
            mem[j]
        }),
    decreases upto,
{
    if 0 < upto {
        lemma_spec_load_len(mem, listing, upto - 1);
        lemma_spec_load_at(mem, listing, upto - 1, j);
    }
}

/// Loading the same listing twice leaves the memory of one load.
pub proof fn lemma_spec_load_idempotent(mem: Seq<u16>, listing: Seq<Seq<char>>, upto: int)
    requires
        upto <= listing.len(),
    ensures
        spec_load(spec_load(mem, listing, upto), listing, upto) =~= spec_load(
            mem,
            listing,
            upto,
        ),
{
    let once = spec_load(mem, listing, upto);
    let twice = spec_load(once, listing, upto);
    lemma_spec_load_len(mem, listing, upto);
    lemma_spec_load_len(once, listing, upto);
    assert forall|j: int| 0 <= j < mem.len() implies twice[j] == once[j] by {
        lemma_spec_load_at(mem, listing, upto, j);
        lemma_spec_load_at(once, listing, upto, j);
    }
}

/// The processor: the register file and 4096 words of memory.
pub struct CPU {
    /// The register file.
    pub reg: Registers,
    /// The 4096 memory words.
    pub memory: Vec<u16>,
}

/// A processor state snapshot for callers that display it.
pub struct CPUState {
    /// The register values in display order: AR, PC, DR, AC, IR, TR,
    /// SC, E, S, R, IEN.
    pub registers: Vec<u16>,
    /// A copy of the memory words.
    pub memory: Vec<u16>,
}

impl View for CPU {
    type V = CpuV;

    open spec fn view(&self) -> CpuV {
        CpuV {
            ar: self.reg.ar.value(),
            pc: self.reg.pc.value(),
            dr: self.reg.dr.value(),
            ac: self.reg.ac.value(),
            ir: self.reg.ir.value(),
            tr: self.reg.tr.value(),
            inpr: self.reg.inpr.value(),
            outr: self.reg.outr.value(),
            sc: self.reg.sc.value(),
            e: self.reg.e.value(),
            s: self.reg.s.value(),
            r: self.reg.r.value(),
            ien: self.reg.ien.value(),
            fgi: self.reg.fgi.value(),
            fgo: self.reg.fgo.value(),
            mem: self.memory@,
        }
    }
}

impl CPU {
    /// The register file is well formed and memory has its full size.
    pub open spec fn wf(&self) -> bool {
        &&& self.reg.wf()
        &&& self.memory@.len() == mem_size()
    }

    /// A well-formed processor's snapshot satisfies the state
    /// invariant.
    pub proof fn lemma_wf_inv(&self)
        requires
            self.wf(),
        ensures
            self@.inv(),
    {
    }

    /// A processor with zeroed registers and zeroed memory.
    pub fn new() -> (r: CPU)
        ensures
            r.wf(),
            r@.ar == 0 && r@.pc == 0 && r@.dr == 0 && r@.ac == 0 && r@.ir == 0 && r@.tr == 0,
            r@.inpr == 0 && r@.outr == 0 && r@.sc == 0 && r@.e == 0 && r@.s == 0 && r@.r == 0,
            r@.ien == 0 && r@.fgi == 0 && r@.fgo == 0,
            r@.mem =~= Seq::new(mem_size() as nat, |i: int| 0u16),
    {
        let memory: Vec<u16> = vec![0u16; 4096];
        proof {
            assert(memory@ =~= Seq::new(mem_size() as nat, |i: int| 0u16));
        }
        CPU { reg: Registers::new(), memory }
    }

    /// Parse each listing entry as hexadecimal and place it at its own
    /// index; empty entries leave the word as it is, and entries that
    /// do not parse, or whose index lies outside memory, are reported.
    pub fn load_program_into_memory(&mut self, assembled_program: &Vec<String>) -> (r: Messages)
        requires
            old(self).wf(),
        ensures
            final(self).wf(),
            final(self)@ == (CpuV {
                mem: spec_load(
                    old(self)@.mem,
                    assembled_program.deep_view(),
                    assembled_program.deep_view().len() as int,
                ),
                ..old(self)@
            }),
            r@ =~= spec_load_log(
                assembled_program.deep_view(),
                assembled_program.deep_view().len() as int,
            ),
    {
        let ghost listing = assembled_program.deep_view();
        let mut messages = Messages::new();
        let mut i: usize = 0;
        proof {
            assert(listing.len() == assembled_program@.len());
        }
        while i < assembled_program.len()
            invariant
                self.wf(),
                i <= listing.len(),
                listing == assembled_program.deep_view(),
                listing.len() == assembled_program@.len(),
                self@ == (CpuV { mem: spec_load(old(self)@.mem, listing, i as int), ..old(
                    self,
                )@ }),
                messages@ =~= spec_load_log(listing, i as int),
            decreases listing.len() - i,
        {
            proof {
                assert(listing[i as int] == assembled_program@[i as int]@);
                lemma_spec_load_len(old(self)@.mem, listing, i as int);
            }
            let entry = &assembled_program[i];
            let chars = crate::text::line_chars(entry.as_str());
            if chars.len() > 0 {
                match parse_hex_u16(&chars) {
                    Some(word) => {
                        if i < self.memory.len() {
                            self.memory[i] = word;
                        } else {
                            let mut text = String::from_str("Instruction address ");
                            let num = to_dec_string(i as u64);
                            text.append(num.as_str());
                            text.append(" is outside memory");
                            messages.error(text.as_str());
                        }
                    },
                    None => {
                        let mut text = String::from_str("Invalid instruction format: ");
                        text.append(entry.as_str());
                        messages.error(text.as_str());
                    },
                }
            }
            i = i + 1;
        }
        messages
    }

    /// Point the program counter at `start`'s low twelve bits.
    pub fn set_program_start(&mut self, start: u16) -> (r: Messages)
        requires
            old(self).wf(),
        ensures
            final(self).wf(),
            final(self)@ == (CpuV { pc: low12(start), ..old(self)@ }),
            r@ =~= seq![(Level::Info, "Program will start at address "@ + dec_str(start as int))],
    {
        let mut messages = Messages::new();
        self.reg.pc.set(start);
        let mut text = String::from_str("Program will start at address ");
        let num = to_dec_string(start as u64);
        text.append(num.as_str());
        messages.info(text.as_str());
        messages
    }

    /// Reset for a run: program counter and sequence counter to zero,
    /// the machine started, the instruction register primed to one,
    /// and the listing loaded.
    pub fn reset(&mut self, assembled_program: &Vec<String>)
        requires
            old(self).wf(),
        ensures
            final(self).wf(),
            final(self)@ == (CpuV {
                pc: 0,
                s: 1,
                ir: 1,
                sc: 0,
                mem: spec_load(
                    old(self)@.mem,
                    assembled_program.deep_view(),
                    assembled_program.deep_view().len() as int,
                ),
                ..old(self)@
            }),
    {
        let _ = self.set_program_start(0);
        self.reg.s.set(1);
        self.reg.ir.set(1);
        self.reg.sc.clear();
        let _ = self.load_program_into_memory(assembled_program);
    }

    /// The word the address register points at.
    pub fn read_from_memory(&self) -> (r: u16)
        requires
            self.wf(),
        ensures
            r == mem_read(self@),
    {
        let address = self.reg.ar.get() as usize;
        if address < self.memory.len() {
            self.memory[address]
        } else {
            0
        }
    }

    /// Store `value` at the word the address register points at.
    pub fn write_to_memory(&mut self, value: u16)
        requires
            old(self).wf(),
        ensures
            final(self).wf(),
            final(self)@ == (CpuV { mem: mem_written(old(self)@, value), ..old(self)@ }),
    {
        let address = self.reg.ar.get() as usize;
        if address < self.memory.len() {
            self.memory[address] = value;
        }
    }

    /// The opcode of the current instruction.
    fn get_opcode(&self) -> (r: u16)
        ensures
            r == opcode_of(self@.ir),
    {
        (self.reg.ir.get() / 0x1000) % 8
    }

    /// The indirect bit of the current instruction.
    fn get_indirect_bit(&self) -> (r: u16)
        ensures
            r == indirect_of(self@.ir),
    {
        self.reg.ir.get() / 0x8000
    }

    /// The lowest set bit among the instruction's bits zero to eleven,
    /// or zero.
    fn get_instruction_bit(&self) -> (r: u16)
        ensures
            r == instr_bit_of(self@.ir),
    {
        let ir = self.reg.ir.get();
        if ir % 2 == 1 {
            0
        } else if (ir / 0x2) % 2 == 1 {
            1
        } else if (ir / 0x4) % 2 == 1 {
            2
        } else if (ir / 0x8) % 2 == 1 {
            3
        } else if (ir / 0x10) % 2 == 1 {
            4
        } else if (ir / 0x20) % 2 == 1 {
            5
        } else if (ir / 0x40) % 2 == 1 {
            6
        } else if (ir / 0x80) % 2 == 1 {
            7
        } else if (ir / 0x100) % 2 == 1 {
            8
        } else if (ir / 0x200) % 2 == 1 {
            9
        } else if (ir / 0x400) % 2 == 1 {
            10
        } else if (ir / 0x800) % 2 == 1 {
            11
        } else {
            0
        }
    }

    /// One tick: perform the single micro-step that the dispatch
    /// conditions select, and log it.
    pub fn tick(&mut self, messages: &mut Messages)
        requires
            old(self).wf(),
        ensures
            final(self).wf(),
            final(self)@ == spec_tick(old(self)@),
            final(messages)@ =~= old(messages)@ + spec_tick_log(old(self)@),
    {
        let tick = self.reg.sc.get();
        let interrupt_raised = self.reg.r.get();
        let opcode = self.get_opcode();
        let i_bit = self.get_indirect_bit();

        if tick < 3 && interrupt_raised == 1 {
            self.interrupt(tick, messages);
        } else if tick < 2 && interrupt_raised == 0 {
            self.instruction_fetch(tick, messages);
        } else if tick == 2 && interrupt_raised == 0 {
            self.instruction_decode(messages);
        } else if tick == 3 && opcode != 7 {
            self.fetch_operand(i_bit, messages);
        } else if tick > 3 && opcode != 7 {
            self.execute_mri(opcode, tick, messages);
        } else if tick == 3 && opcode == 7 {
            let instruction = self.get_instruction_bit();
            if i_bit == 1 {
                self.execute_io(instruction, messages);
            } else {
                self.execute_rri(instruction, messages);
            }
        }
    }

    /// The interrupt cycle: save the program counter at address zero,
    /// jump to address one, and clear the interrupt state.
    fn interrupt(&mut self, tick: u16, messages: &mut Messages)
        requires
            old(self).wf(),
        ensures
            final(self).wf(),
            final(self)@ == spec_interrupt(old(self)@, tick),
            final(messages)@ =~= old(messages)@ + interrupt_log(tick),
    {
        if tick == 0 {
            messages.debug("INTERRUPT RT0 : AR <- 0, TR <- PC");
            self.reg.ar.clear();
            self.reg.tr.set(self.reg.pc.get());
            self.reg.sc.increment();
        } else if tick == 1 {
            messages.debug("INTERRUPT RT1 : M[AR] <- TR, PC <- 0");
            self.write_to_memory(self.reg.tr.get());
            self.reg.pc.clear();
            self.reg.sc.increment();
        } else if tick == 2 {
            messages.debug("INTERRUPT RT2 : PC <- PC + 1, IEN <- 0, R <- 0, SC <- 0");
            self.reg.pc.increment();
            self.reg.ien.clear();
            self.reg.r.clear();
            self.reg.sc.clear();
        }
    }

    /// Fetch: address register from program counter, then instruction
    /// register from memory while the program counter advances.
    fn instruction_fetch(&mut self, tick: u16, messages: &mut Messages)
        requires
            old(self).wf(),
        ensures
            final(self).wf(),
            final(self)@ == spec_fetch(old(self)@, tick),
            final(messages)@ =~= old(messages)@ + fetch_log(tick),
    {
        if tick == 0 {
            messages.debug("FETCH R'T0 : AR <- PC");
            self.reg.ar.set(self.reg.pc.get());
            self.reg.sc.increment();
        } else if tick == 1 {
            messages.debug("FETCH R'T1 : IR <- M[AR], PC <- PC + 1");
            let word = self.read_from_memory();
            self.reg.ir.set(word);
            self.reg.pc.increment();
            self.reg.sc.increment();
        }
    }

    /// Decode: the address register takes the instruction's address
    /// part.
    fn instruction_decode(&mut self, messages: &mut Messages)
        requires
            old(self).wf(),
        ensures
            final(self).wf(),
            final(self)@ == spec_decode(old(self)@),
            final(messages)@ =~= old(messages)@.push((Level::Debug, "DECODE R'T2 : AR <- IR(0-11)"@)),
    {
        messages.debug("DECODE R'T2 : AR <- IR(0-11)");
        let address_bits = self.reg.ir.get() % 0x1000;
        self.reg.ar.set(address_bits);
        self.reg.sc.increment();
    }

    /// Indirect resolution: with the indirect bit set, follow the
    /// address one step through memory.
    fn fetch_operand(&mut self, i_bit: u16, messages: &mut Messages)
        requires
            old(self).wf(),
        ensures
            final(self).wf(),
            final(self)@ == spec_fetch_operand(old(self)@, i_bit),
            final(messages)@ =~= old(messages)@ + fetch_operand_log(i_bit),
    {
        if i_bit == 1 {
            messages.debug("INDIRECT D7'IT3 : AR <- M[AR]");
            let word = self.read_from_memory();
            self.reg.ar.set(word);
        }
        self.reg.sc.increment();
    }

    /// Dispatch a memory-reference micro-step by opcode.
    fn execute_mri(&mut self, opcode: u16, tick: u16, messages: &mut Messages)
        requires
            old(self).wf(),
            opcode <= 6,
        ensures
            final(self).wf(),
            final(self)@ == spec_execute_mri(old(self)@, opcode, tick),
            final(messages)@ =~= old(messages)@ + mri_log(opcode, tick),
    {
        if opcode == 0 {
            self.and(messages, tick);
        } else if opcode == 1 {
            self.add(messages, tick);
        } else if opcode == 2 {
            self.lda(messages, tick);
        } else if opcode == 3 {
            self.sta(messages);
        } else if opcode == 4 {
            self.bun(messages);
        } else if opcode == 5 {
            self.bsa(messages, tick);
        } else {
            self.isz(messages, tick);
        }
    }

    /// Dispatch a register-reference micro-step by its selector bit,
    /// then clear the sequence counter.
    fn execute_rri(&mut self, instruction: u16, messages: &mut Messages)
        requires
            old(self).wf(),
            instruction <= 11,
        ensures
            final(self).wf(),
            final(self)@ == spec_execute_rri(old(self)@, instruction),
            final(messages)@ =~= old(messages)@ + rri_log(instruction),
    {
        if instruction == 11 {
            self.cla(messages);
        } else if instruction == 10 {
            self.cle(messages);
        } else if instruction == 9 {
            self.cma(messages);
        } else if instruction == 8 {
            self.cme(messages);
        } else if instruction == 7 {
            self.cir(messages);
        } else if instruction == 6 {
            self.cil(messages);
        } else if instruction == 5 {
            self.inc(messages);
        } else if instruction == 4 {
            self.spa(messages);
        } else if instruction == 3 {
            self.sna(messages);
        } else if instruction == 2 {
            self.sza(messages);
        } else if instruction == 1 {
            self.sze(messages);
        } else {
            self.hlt(messages);
        }
        self.reg.sc.clear();
    }

    /// Dispatch an input-output micro-step by its selector bit, then
    /// clear the sequence counter. Selector bits below six name no
    /// instruction and are reported.
    fn execute_io(&mut self, instruction: u16, messages: &mut Messages)
        requires
            old(self).wf(),
            instruction <= 11,
        ensures
            final(self).wf(),
            final(self)@ == spec_execute_io(old(self)@, instruction),
            final(messages)@ =~= old(messages)@ + io_log(instruction),
    {
        if instruction == 11 {
            self.inp(messages);
        } else if instruction == 10 {
            self.out(messages);
        } else if instruction == 9 {
            self.ski(messages);
        } else if instruction == 8 {
            self.sko(messages);
        } else if instruction == 7 {
            self.ion(messages);
        } else if instruction == 6 {
            self.iof(messages);
        } else {
            let mut text = String::from_str("Unknown IO instruction: ");
            let num = to_dec_string(instruction as u64);
            text.append(num.as_str());
            messages.error(text.as_str());
        }
        self.reg.sc.clear();
    }

    /// AND micro-steps: operand read, then conjunction.
    pub fn and(&mut self, messages: &mut Messages, tick: u16)
        requires
            old(self).wf(),
        ensures
            final(self).wf(),
            final(self)@ == spec_and(old(self)@, tick),
            final(messages)@ =~= old(messages)@ + and_log(tick),
    {
        if tick == 4 {
            messages.debug("AND D0T4 : DR <- M[AR]");
            let memory_value = self.read_from_memory();
            self.reg.dr.set(memory_value);
            self.reg.sc.increment();
        } else if tick == 5 {
            messages.debug("AND D0T5 : AC <- AC & DR, SC <- 0");
            self.reg.ac.logic_and(self.reg.dr.get());
            self.reg.sc.clear();
        }
    }

    /// ADD micro-steps: operand read, then addition with carry out to
    /// the extend bit.
    pub fn add(&mut self, messages: &mut Messages, tick: u16)
        requires
            old(self).wf(),
        ensures
            final(self).wf(),
            final(self)@ == spec_add(old(self)@, tick),
            final(messages)@ =~= old(messages)@ + add_log(tick),
    {
        if tick == 4 {
            messages.debug("ADD D1T4 : DR <- M[AR]");
            let memory_value = self.read_from_memory();
            self.reg.dr.set(memory_value);
            self.reg.sc.increment();
        } else if tick == 5 {
            messages.debug("ADD D1T5 : AC <- AC + DR, E <- Cout, SC <- 0");
            let carry = self.reg.ac.add(self.reg.dr.get());
            self.reg.e.set(carry);
            self.reg.sc.clear();
        }
    }

    /// LDA micro-steps: operand read, then load.
    pub fn lda(&mut self, messages: &mut Messages, tick: u16)
        requires
            old(self).wf(),
        ensures
            final(self).wf(),
            final(self)@ == spec_lda(old(self)@, tick),
            final(messages)@ =~= old(messages)@ + lda_log(tick),
    {
        if tick == 4 {
            messages.debug("LDA D2T4 : DR <- M[AR]");
            let memory_value = self.read_from_memory();
            self.reg.dr.set(memory_value);
            self.reg.sc.increment();
        } else if tick == 5 {
            messages.debug("LDA D2T5 : AC <- DR, SC <- 0");
            self.reg.ac.set(self.reg.dr.get());
            self.reg.sc.clear();
        }
    }

    /// STA: store the accumulator at the addressed word.
    pub fn sta(&mut self, messages: &mut Messages)
        requires
            old(self).wf(),
        ensures
            final(self).wf(),
            final(self)@ == spec_sta(old(self)@),
            final(messages)@ =~= old(messages)@.push((Level::Debug, "STA D3T4 : M[AR] <- AC, SC <- 0"@)),
    {
        messages.debug("STA D3T4 : M[AR] <- AC, SC <- 0");
        self.write_to_memory(self.reg.ac.get());
        self.reg.sc.clear();
    }

    /// BUN: jump to the addressed word.
    pub fn bun(&mut self, messages: &mut Messages)
        requires
            old(self).wf(),
        ensures
            final(self).wf(),
            final(self)@ == spec_bun(old(self)@),
            final(messages)@ =~= old(messages)@.push((Level::Debug, "BUN D4T4 : PC <- AR, SC <- 0"@)),
    {
        messages.debug("BUN D4T4 : PC <- AR, SC <- 0");
        self.reg.pc.set(self.reg.ar.get());
        self.reg.sc.clear();
    }

    /// BSA micro-steps: save the return address, then jump past it.
    pub fn bsa(&mut self, messages: &mut Messages, tick: u16)
        requires
            old(self).wf(),
        ensures
            final(self).wf(),
            final(self)@ == spec_bsa(old(self)@, tick),
            final(messages)@ =~= old(messages)@ + bsa_log(tick),
    {
        if tick == 4 {
            messages.debug("BSA D5T4 : M[AR] <- PC, AR <- AR + 1");
            self.write_to_memory(self.reg.pc.get());
            self.reg.ar.increment();
            self.reg.sc.increment();
        } else if tick == 5 {
            messages.debug("BSA D5T5 : PC <- AR, SC <- 0");
            self.reg.pc.set(self.reg.ar.get());
            self.reg.sc.clear();
        }
    }

    /// ISZ micro-steps: read, increment, write back and skip on zero.
    pub fn isz(&mut self, messages: &mut Messages, tick: u16)
        requires
            old(self).wf(),
        ensures
            final(self).wf(),
            final(self)@ == spec_isz(old(self)@, tick),
            final(messages)@ =~= old(messages)@ + isz_log(tick),
    {
        if tick == 4 {
            messages.debug("ISZ D6T4 : DR <- M[AR]");
            let memory_value = self.read_from_memory();
            self.reg.dr.set(memory_value);
            self.reg.sc.increment();
        } else if tick == 5 {
            messages.debug("ISZ D6T5 : DR <- DR + 1");
            self.reg.dr.increment();
            self.reg.sc.increment();
        } else if tick == 6 {
            messages.debug("ISZ D6T6 : M[AR] <- DR, if (DR = 0) then (PC <- PC + 1), SC <- 0");
            self.write_to_memory(self.reg.dr.get());
            if self.reg.dr.get() == 0 {
                self.reg.pc.increment();
            }
            self.reg.sc.clear();
        }
    }

    /// CLA: clear the accumulator.
    pub fn cla(&mut self, messages: &mut Messages)
        requires
            old(self).wf(),
        ensures
            final(self).wf(),
            final(self)@ == (CpuV { ac: 0, ..old(self)@ }),
            final(messages)@ =~= old(messages)@.push((Level::Debug, "CLA D7I'T3rB11 : AC <- 0, SC <- 0"@)),
    {
        messages.debug("CLA D7I'T3rB11 : AC <- 0, SC <- 0");
        self.reg.ac.clear();
    }

    /// CLE: clear the extend bit.
    pub fn cle(&mut self, messages: &mut Messages)
        requires
            old(self).wf(),
        ensures
            final(self).wf(),
            final(self)@ == (CpuV { e: 0, ..old(self)@ }),
            final(messages)@ =~= old(messages)@.push((Level::Debug, "CLE D7I'T3rB10 : E <- 0, SC <- 0"@)),
    {
        messages.debug("CLE D7I'T3rB10 : E <- 0, SC <- 0");
        self.reg.e.clear();
    }

    /// CMA: complement the accumulator.
    pub fn cma(&mut self, messages: &mut Messages)
        requires
            old(self).wf(),
        ensures
            final(self).wf(),
            final(self)@ == (CpuV { ac: (0xFFFF - old(self)@.ac) as u16, ..old(self)@ }),
            final(messages)@ =~= old(messages)@.push((Level::Debug, "CMA D7I'T3rB9 : AC <- AC', SC <- 0"@)),
    {
        messages.debug("CMA D7I'T3rB9 : AC <- AC', SC <- 0");
        self.reg.ac.complement();
    }

    /// CME: complement the extend bit.
    pub fn cme(&mut self, messages: &mut Messages)
        requires
            old(self).wf(),
        ensures
            final(self).wf(),
            final(self)@ == (CpuV { e: (1 - old(self)@.e) as u16, ..old(self)@ }),
            final(messages)@ =~= old(messages)@.push((Level::Debug, "CME D7I'T3rB8 : E <- E', SC <- 0"@)),
    {
        messages.debug("CME D7I'T3rB8 : E <- E', SC <- 0");
        self.reg.e.complement();
    }

    /// CIR: circulate the accumulator right through the extend bit.
    pub fn cir(&mut self, messages: &mut Messages)
        requires
            old(self).wf(),
        ensures
            final(self).wf(),
            final(self)@ == (CpuV {
                ac: (old(self)@.ac as int / 2 + if old(self)@.e != 0 {
                    0x8000int
                } else {
                    0int
                }) as u16,
                e: (old(self)@.ac as int % 2) as u16,
                ..old(self)@
            }),
            final(messages)@ =~= old(messages)@.push((Level::Debug, "CIR D7I'T3rB7 : AC <- shr AC, AC(15) <- E, E <- AC(0), SC <- 0"@)),
    {
        messages.debug("CIR D7I'T3rB7 : AC <- shr AC, AC(15) <- E, E <- AC(0), SC <- 0");
        let new_e = self.reg.ac.shift_right(self.reg.e.get());
        self.reg.e.set(new_e);
    }

    /// CIL: circulate the accumulator left through the extend bit.
    pub fn cil(&mut self, messages: &mut Messages)
        requires
            old(self).wf(),
        ensures
            final(self).wf(),
            final(self)@ == (CpuV {
                ac: ((2 * old(self)@.ac + old(self)@.e % 2) % 0x10000) as u16,
                e: if old(self)@.ac >= 0x8000 {
                    1u16
                } else {
                    0u16
                },
                ..old(self)@
            }),
            final(messages)@ =~= old(messages)@.push((Level::Debug, "CIL D7I'T3rB6 : AC <- shl AC, AC(0) <- E, E <- AC(15), SC <- 0"@)),
    {
        messages.debug("CIL D7I'T3rB6 : AC <- shl AC, AC(0) <- E, E <- AC(15), SC <- 0");
        let new_e = self.reg.ac.shift_left(self.reg.e.get());
        self.reg.e.set(new_e);
    }

    /// INC: add one to the accumulator.
    pub fn inc(&mut self, messages: &mut Messages)
        requires
            old(self).wf(),
        ensures
            final(self).wf(),
            final(self)@ == (CpuV { ac: ((old(self)@.ac + 1) % 0x10000) as u16, ..old(self)@ }),
            final(messages)@ =~= old(messages)@.push((Level::Debug, "INC D7I'T3rB5 : AC <- AC + 1, SC <- 0"@)),
    {
        messages.debug("INC D7I'T3rB5 : AC <- AC + 1, SC <- 0");
        self.reg.ac.increment();
    }

    /// SPA: skip the next instruction when the accumulator is
    /// non-negative as a signed word.
    pub fn spa(&mut self, messages: &mut Messages)
        requires
            old(self).wf(),
        ensures
            final(self).wf(),
            final(self)@ == (CpuV {
                pc: if old(self)@.ac < 0x8000 {
                    ((old(self)@.pc + 1) % 0x1000) as u16
                } else {
                    old(self)@.pc
                },
                ..old(self)@
            }),
            final(messages)@ =~= old(messages)@.push((Level::Debug, "SPA D7I'T3rB4 : if (AC(15) = 0) then (PC <- PC + 1), SC <- 0"@)),
    {
        messages.debug("SPA D7I'T3rB4 : if (AC(15) = 0) then (PC <- PC + 1), SC <- 0");
        if self.reg.ac.get() < 0x8000 {
            self.reg.pc.increment();
        }
    }

    /// SNA: skip the next instruction when the accumulator is negative
    /// as a signed word.
    pub fn sna(&mut self, messages: &mut Messages)
        requires
            old(self).wf(),
        ensures
            final(self).wf(),
            final(self)@ == (CpuV {
                pc: if old(self)@.ac >= 0x8000 {
                    ((old(self)@.pc + 1) % 0x1000) as u16
                } else {
                    old(self)@.pc
                },
                ..old(self)@
            }),
            final(messages)@ =~= old(messages)@.push((Level::Debug, "SNA D7I'T3rB3 : if (AC(15) = 1) then (PC <- PC + 1), SC <- 0"@)),
    {
        messages.debug("SNA D7I'T3rB3 : if (AC(15) = 1) then (PC <- PC + 1), SC <- 0");
        if self.reg.ac.get() >= 0x8000 {
            self.reg.pc.increment();
        }
    }

    /// SZA: skip the next instruction when the accumulator is zero.
    pub fn sza(&mut self, messages: &mut Messages)
        requires
            old(self).wf(),
        ensures
            final(self).wf(),
            final(self)@ == (CpuV {
                pc: if old(self)@.ac == 0 {
                    ((old(self)@.pc + 1) % 0x1000) as u16
                } else {
                    old(self)@.pc
                },
                ..old(self)@
            }),
            final(messages)@ =~= old(messages)@.push((Level::Debug, "SZA D7I'T3rB2 : if (AC = 0) then (PC <- PC + 1), SC <- 0"@)),
    {
        messages.debug("SZA D7I'T3rB2 : if (AC = 0) then (PC <- PC + 1), SC <- 0");
        if self.reg.ac.get() == 0 {
            self.reg.pc.increment();
        }
    }

    /// SZE: skip the next instruction when the extend bit is zero.
    pub fn sze(&mut self, messages: &mut Messages)
        requires
            old(self).wf(),
        ensures
            final(self).wf(),
            final(self)@ == (CpuV {
                pc: if old(self)@.e == 0 {
                    ((old(self)@.pc + 1) % 0x1000) as u16
                } else {
                    old(self)@.pc
                },
                ..old(self)@
            }),
            final(messages)@ =~= old(messages)@.push((Level::Debug, "SZE D7I'T3rB1 : if (E = 0) then (PC <- PC + 1), SC <- 0"@)),
    {
        messages.debug("SZE D7I'T3rB1 : if (E = 0) then (PC <- PC + 1), SC <- 0");
        if self.reg.e.get() == 0 {
            self.reg.pc.increment();
        }
    }

    /// HLT: stop the machine and report the halt.
    pub fn hlt(&mut self, messages: &mut Messages)
        requires
            old(self).wf(),
        ensures
            final(self).wf(),
            final(self)@ == (CpuV { s: 0, ..old(self)@ }),
            final(messages)@ =~= old(messages)@.push(
                (Level::Debug, "HLT D7I'T3rB0 : S <- 0, SC <- 0"@),
            ).push((Level::Error, "Halting"@)),
    {
        messages.debug("HLT D7I'T3rB0 : S <- 0, SC <- 0");
        messages.error("Halting");
        self.reg.s.set(0);
    }

    /// INP: recognized, no device model yet.
    pub fn inp(&mut self, messages: &mut Messages)
        requires
            old(self).wf(),
        ensures
            final(self).wf(),
            final(self)@ == old(self)@,
            final(messages)@ =~= old(messages)@.push((Level::Debug, "INP :"@)),
    {
        messages.debug("INP :");
    }

    /// OUT: recognized, no device model yet.
    pub fn out(&mut self, messages: &mut Messages)
        requires
            old(self).wf(),
        ensures
            final(self).wf(),
            final(self)@ == old(self)@,
            final(messages)@ =~= old(messages)@.push((Level::Debug, "OUT :"@)),
    {
        messages.debug("OUT :");
    }

    /// SKI: recognized, no device model yet.
    pub fn ski(&mut self, messages: &mut Messages)
        requires
            old(self).wf(),
        ensures
            final(self).wf(),
            final(self)@ == old(self)@,
            final(messages)@ =~= old(messages)@.push((Level::Debug, "SKI :"@)),
    {
        messages.debug("SKI :");
    }

    /// SKO: recognized, no device model yet.
    pub fn sko(&mut self, messages: &mut Messages)
        requires
            old(self).wf(),
        ensures
            final(self).wf(),
            final(self)@ == old(self)@,
            final(messages)@ =~= old(messages)@.push((Level::Debug, "SKO :"@)),
    {
        messages.debug("SKO :");
    }

    /// ION: enable interrupts.
    pub fn ion(&mut self, messages: &mut Messages)
        requires
            old(self).wf(),
        ensures
            final(self).wf(),
            final(self)@ == (CpuV { ien: 1, ..old(self)@ }),
            final(messages)@ =~= old(messages)@.push((Level::Debug, "ION D7IT3pB7 : IEN <- 1, SC <- 0"@)),
    {
        messages.debug("ION D7IT3pB7 : IEN <- 1, SC <- 0");
        self.reg.ien.set(1);
    }

    /// IOF: disable interrupts.
    pub fn iof(&mut self, messages: &mut Messages)
        requires
            old(self).wf(),
        ensures
            final(self).wf(),
            final(self)@ == (CpuV { ien: 0, ..old(self)@ }),
            final(messages)@ =~= old(messages)@.push((Level::Debug, "IOF D7IT3pB6 : IEN <- 0, SC <- 0"@)),
    {
        messages.debug("IOF D7IT3pB6 : IEN <- 0, SC <- 0");
        self.reg.ien.set(0);
    }
}

/// A tick on a halted machine does nothing.
pub open spec fn phase_halt(v: CpuV) -> bool {
    v.s == 0
}

/// The interrupt cycle fires.
pub open spec fn phase_interrupt(v: CpuV) -> bool {
    v.s != 0 && v.sc < 3 && v.r == 1
}

/// Instruction fetch fires.
pub open spec fn phase_fetch(v: CpuV) -> bool {
    v.s != 0 && v.sc < 2 && v.r == 0
}

/// Decode fires.
pub open spec fn phase_decode(v: CpuV) -> bool {
    v.s != 0 && v.sc == 2 && v.r == 0
}

/// Indirect-operand resolution fires.
pub open spec fn phase_indirect(v: CpuV) -> bool {
    v.s != 0 && v.sc == 3 && opcode_of(v.ir) != 7
}

/// A memory-reference execute micro-step fires.
pub open spec fn phase_mri_execute(v: CpuV) -> bool {
    v.s != 0 && v.sc > 3 && opcode_of(v.ir) != 7
}

/// A register-reference execute fires.
pub open spec fn phase_rri_execute(v: CpuV) -> bool {
    v.s != 0 && v.sc == 3 && opcode_of(v.ir) == 7 && indirect_of(v.ir) == 0
}

/// An input-output execute fires.
pub open spec fn phase_io_execute(v: CpuV) -> bool {
    v.s != 0 && v.sc == 3 && opcode_of(v.ir) == 7 && indirect_of(v.ir) == 1
}

/// Every tick fires exactly one of the eight phases: halt no-op,
/// interrupt, fetch, decode, indirect resolution, memory-reference
/// execute, register-reference execute, or input-output execute. The
/// one corner left out is a running machine whose sequence counter
/// passed three while a register-reference or input-output
/// instruction is current: there the dispatch does nothing at all.
pub proof fn lemma_tick_phase_exclusive(v: CpuV)
    requires
        v.inv(),
        v.s == 0 || !(v.sc > 3 && opcode_of(v.ir) == 7),
    ensures
        (if phase_halt(v) {
            1int
        } else {
            0int
        }) + (if phase_interrupt(v) {
            1int
        } else {
            0int
        }) + (if phase_fetch(v) {
            1int
        } else {
            0int
        }) + (if phase_decode(v) {
            1int
        } else {
            0int
        }) + (if phase_indirect(v) {
            1int
        } else {
            0int
        }) + (if phase_mri_execute(v) {
            1int
        } else {
            0int
        }) + (if phase_rri_execute(v) {
            1int
        } else {
            0int
        }) + (if phase_io_execute(v) {
            1int
        } else {
            0int
        }) == 1,
{
    assert(opcode_of(v.ir) <= 7);
    assert(indirect_of(v.ir) <= 1);
}

/// After the HLT micro-step fires, the machine is halted: the start
/// flip-flop is zero.
pub proof fn lemma_hlt_halts(v: CpuV)
    requires
        v.sc == 3,
        opcode_of(v.ir) == 7,
        indirect_of(v.ir) == 0,
        instr_bit_of(v.ir) == 0,
        !(v.sc < 3 && v.r == 1),
    ensures
        spec_tick(v).s == 0,
{
}

/// Circulating the accumulator right and then left through the
/// extend bit restores both the accumulator and the bit.
pub proof fn lemma_cir_cil_identity(v: CpuV)
    requires
        v.e <= 1,
    ensures
        spec_execute_rri(spec_execute_rri(v, 7), 6).ac == v.ac,
        spec_execute_rri(spec_execute_rri(v, 7), 6).e == v.e,
{
    let mid = spec_execute_rri(v, 7);
    assert(mid.ac == v.ac as int / 2 + if v.e != 0 {
        0x8000int
    } else {
        0int
    });
    assert(mid.e == v.ac as int % 2);
    assert(2 * (v.ac as int / 2) + v.ac as int % 2 == v.ac);
    if v.e == 0 {
        vstd::arithmetic::div_mod::lemma_small_mod(v.ac as nat, 0x10000nat);
        assert(spec_execute_rri(mid, 6).ac == v.ac);
    } else {
        assert(2 * mid.ac + mid.e % 2 == v.ac + 0x10000);
        vstd::arithmetic::div_mod::lemma_mod_add_multiples_vanish(v.ac as int, 0x10000int);
        vstd::arithmetic::div_mod::lemma_small_mod(v.ac as nat, 0x10000nat);
        assert(spec_execute_rri(mid, 6).ac == v.ac);
    }
}

} // verus!
