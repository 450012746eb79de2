//! The machine facade: storage and processor together, driven by
//! `prime` and `tick`.

use crate::assembler;
use crate::cpu::spec_load;
use crate::cpu::spec_tick;
use crate::cpu::spec_tick_log;
use crate::cpu::CpuV;
use crate::cpu::CPU;
use crate::message::count_errors;
use crate::message::Entry;
use crate::message::Level;
use crate::message::Messages;
use crate::storage::Storage;
use vstd::prelude::*;

verus! {

/// The operations a front-end can ask of the machine.
pub enum Command {
    Assemble,
    Tick,
    Memory(u16),
    Clear,
}

/// A mathematical snapshot of the whole machine.
pub ghost struct MachineV {
    pub cpu: CpuV,
    pub src: Seq<Seq<char>>,
    pub listing: Seq<Seq<char>>,
    pub tab: Seq<(Seq<char>, u32)>,
    pub primed: bool,
}

/// Resetting loads the assembled listing into memory and restarts:
/// program counter and sequence counter zero, the machine started,
/// the instruction register primed to one. The other registers keep
/// their values.
pub open spec fn spec_machine_reset(m: MachineV) -> MachineV {
    MachineV {
        cpu: CpuV {
            pc: 0,
            s: 1,
            ir: 1,
            sc: 0,
            mem: spec_load(m.cpu.mem, m.listing, m.listing.len() as int),
            ..m.cpu
        },
        ..m
    }
}

/// A display snapshot of the registers that matter to a front-end,
/// with the first words of memory.
#[derive(Debug, Clone)]
pub struct MachineState {
    pub program_counter: u16,
    pub accumulator: u16,
    pub instruction_register: u16,
    pub address_register: u16,
    pub data_register: u16,
    pub extend_register: u16,
    pub sequence_counter: u16,
    pub is_halted: bool,
    pub is_running: bool,
    pub memory_snapshot: Vec<u16>,
}

/// The machine: its stores, its processor, and whether a program has
/// been primed successfully.
pub struct Machine {
    storage: Storage,
    cpu: CPU,
    primed: bool,
}

impl View for Machine {
    type V = MachineV;

    closed spec fn view(&self) -> MachineV {
        MachineV {
            cpu: self.cpu@,
            src: self.storage.source_program.deep_view(),
            listing: self.storage.assembled_program.deep_view(),
            tab: self.storage.address_symbol_table@,
            primed: self.primed,
        }
    }
}

impl Machine {
    /// The processor is well formed.
    pub closed spec fn wf(&self) -> bool {
        self.cpu.wf()
    }

    /// A fresh machine: zero registers, zero memory, empty stores,
    /// nothing primed. It is halted until primed.
    pub fn new() -> (r: Machine)
        ensures
            r.wf(),
            r@.cpu == (CpuV {
                ar: 0,
                pc: 0,
                dr: 0,
                ac: 0,
                ir: 0,
                tr: 0,
                inpr: 0,
                outr: 0,
                sc: 0,
                e: 0,
                s: 0,
                r: 0,
                ien: 0,
                fgi: 0,
                fgo: 0,
                mem: Seq::new(4096nat, |i: int| 0u16),
            }),
            r@.src =~= Seq::<Seq<char>>::empty(),
            r@.listing =~= Seq::<Seq<char>>::empty(),
            r@.tab =~= Seq::<(Seq<char>, u32)>::empty(),
            !r@.primed,
    {
        Machine { storage: Storage::new(), cpu: CPU::new(), primed: false }
    }

    /// Load, assemble, and — when assembly is clean — reset for a
    /// run. On any assembly error the machine stays halted and
    /// unprimed, with the errors reported.
    pub fn prime(&mut self, program: Vec<String>) -> (r: Messages)
        requires
            old(self).wf(),
            program@.len() <= usize::MAX - 0x10000,
        ensures
            final(self).wf(),
            ({
                let lines = program.deep_view();
                let load_log: Seq<Entry> = seq![(Level::Info, "Program loaded successfully"@)];
                let empty_err: Seq<Entry> = if lines.len() == 0 {
                    seq![(Level::Error, "No source program loaded"@)]
                } else {
                    Seq::empty()
                };
                let p1 = assembler::spec_pass_one(lines);
                let pre = load_log + empty_err + p1.log;
                &&& final(self)@.src == lines
                &&& final(self)@.tab == p1.tab
                &&& if count_errors(pre) > 0 {
                    &&& final(self)@.listing =~= Seq::<Seq<char>>::empty()
                    &&& final(self)@.cpu == (CpuV { s: 0, ..old(self)@.cpu })
                    &&& !final(self)@.primed
                    &&& r@ =~= pre
                } else {
                    let p2 = assembler::spec_pass_two(lines, p1.tab);
                    &&& final(self)@.listing == p2.listing
                    &&& count_errors(pre + p2.log) > 0 ==> {
                        &&& final(self)@.cpu == (CpuV { s: 0, ..old(self)@.cpu })
                        &&& !final(self)@.primed
                        &&& r@ =~= pre + p2.log
                    }
                    &&& count_errors(pre + p2.log) == 0 ==> {
                        &&& final(self)@.cpu == (CpuV {
                            pc: 0,
                            s: 1,
                            ir: 1,
                            sc: 0,
                            mem: spec_load(
                                old(self)@.cpu.mem,
                                p2.listing,
                                p2.listing.len() as int,
                            ),
                            ..old(self)@.cpu
                        })
                        &&& final(self)@.primed
                        &&& r@ =~= pre + p2.log + seq![
                            (Level::Info, "Assembly completed successfully"@),
                            (Level::Info, "Machine reset"@),
                        ]
                    }
                }
            }),
    {
        let mut messages = Messages::new();
        self.storage.load_program(program, &mut messages);
        proof {
            assert(messages@ =~= seq![(Level::Info, "Program loaded successfully"@)]);
        }
        assembler::assemble(&mut self.storage, &mut messages);
        if messages.has_errors() {
            proof {
                let lines = program.deep_view();
                let load_log: Seq<Entry> = seq![(Level::Info, "Program loaded successfully"@)];
                let empty_err: Seq<Entry> = if lines.len() == 0 {
                    seq![(Level::Error, "No source program loaded"@)]
                } else {
                    Seq::<Entry>::empty()
                };
                let p1 = assembler::spec_pass_one(lines);
                let pre = load_log + empty_err + p1.log;
                let p2 = assembler::spec_pass_two(lines, p1.tab);
                let succ: Seq<Entry> = seq![(Level::Info, "Assembly completed successfully"@)];
                if count_errors(pre) <= 0 && count_errors(pre + p2.log) == 0 {
                    assert(messages@ == pre + p2.log + succ);
                    crate::message::lemma_count_errors_add(pre + p2.log, succ);
                    assert(succ.drop_last() =~= Seq::<Entry>::empty());
                    assert(count_errors(Seq::<Entry>::empty()) == 0);
                    assert(succ.last() == (Level::Info, "Assembly completed successfully"@));
                    assert(count_errors(succ) == 0);
                }
            }
            self.cpu.reg.s.set(0);
            self.primed = false;
            proof {
                assert(self@.cpu == (CpuV { s: 0, ..old(self)@.cpu }));
            }
        } else {
            proof {
                crate::message::lemma_count_errors_bounded(messages@);
            }
            self.cpu.reset(&self.storage.assembled_program);
            messages.info("Machine reset");
            self.primed = true;
            proof {
                let lines = program.deep_view();
                let load_log: Seq<Entry> = seq![(Level::Info, "Program loaded successfully"@)];
                let empty_err: Seq<Entry> = if lines.len() == 0 {
                    seq![(Level::Error, "No source program loaded"@)]
                } else {
                    Seq::<Entry>::empty()
                };
                let p1 = assembler::spec_pass_one(lines);
                let pre = load_log + empty_err + p1.log;
                let p2 = assembler::spec_pass_two(lines, p1.tab);
                assert(messages@ =~= pre + p2.log + seq![
                    (Level::Info, "Assembly completed successfully"@),
                    (Level::Info, "Machine reset"@),
                ]);
            }
        }
        messages
    }

    /// One micro-step, unless the machine is halted, in which case
    /// nothing changes and an error says so.
    pub fn tick(&mut self, messages: &mut Messages)
        requires
            old(self).wf(),
        ensures
            final(self).wf(),
            old(self)@.cpu.s == 0 ==> final(self)@ == old(self)@ && final(messages)@ =~= old(
                messages,
            )@.push((Level::Error, "Machine halted, please reset"@)),
            old(self)@.cpu.s != 0 ==> final(self)@ == (MachineV {
                cpu: spec_tick(old(self)@.cpu),
                ..old(self)@
            }) && final(messages)@ =~= old(messages)@ + spec_tick_log(old(self)@.cpu),
    {
        if self.is_halted() {
            messages.error("Machine halted, please reset");
            return ;
        }
        self.cpu.tick(messages);
    }

    /// A display snapshot: the visible registers, the halt and run
    /// flags, and the first thirty-two memory words.
    pub fn get_state(&self) -> (s: MachineState)
        requires
            self.wf(),
        ensures
            s.program_counter == self@.cpu.pc,
            s.accumulator == self@.cpu.ac,
            s.instruction_register == self@.cpu.ir,
            s.address_register == self@.cpu.ar,
            s.data_register == self@.cpu.dr,
            s.extend_register == self@.cpu.e,
            s.sequence_counter == self@.cpu.sc,
            s.is_halted == (self@.cpu.s == 0),
            s.is_running == (self@.primed && self@.cpu.s != 0),
            s.memory_snapshot@ =~= self@.cpu.mem.take(32),
    {
        let halted = self.is_halted();
        let mut snapshot: Vec<u16> = Vec::new();
        let mut i: usize = 0;
        while i < 32
            invariant
                i <= 32,
                self.wf(),
                snapshot@ =~= self@.cpu.mem.take(i as int),
            decreases 32 - i,
        {
            snapshot.push(self.cpu.memory[i]);
            proof {
                assert(snapshot@ =~= self@.cpu.mem.take(i + 1));
            }
            i = i + 1;
        }
        MachineState {
            program_counter: self.cpu.reg.pc.get(),
            accumulator: self.cpu.reg.ac.get(),
            instruction_register: self.cpu.reg.ir.get(),
            address_register: self.cpu.reg.ar.get(),
            data_register: self.cpu.reg.dr.get(),
            extend_register: self.cpu.reg.e.get(),
            sequence_counter: self.cpu.reg.sc.get(),
            is_halted: halted,
            is_running: self.primed && !halted,
            memory_snapshot: snapshot,
        }
    }

    /// Whether the machine is halted: the start flip-flop is zero.
    pub fn is_halted(&self) -> (r: bool)
        ensures
            r == (self@.cpu.s == 0),
    {
        self.cpu.reg.s.get() == 0
    }

    /// Whether a program was primed successfully since construction.
    pub fn is_primed(&self) -> (r: bool)
        ensures
            r == self@.primed,
    {
        self.primed
    }

    /// The loaded source lines.
    pub fn get_source_program(&self) -> (r: &Vec<String>)
        ensures
            r.deep_view() == self@.src,
    {
        &self.storage.source_program
    }

    /// The assembled listing.
    pub fn get_assembled_program(&self) -> (r: &Vec<String>)
        ensures
            r.deep_view() == self@.listing,
    {
        &self.storage.assembled_program
    }

    /// The memory word at `address`, or zero outside memory.
    pub fn get_memory_at_address(&self, address: u16) -> (r: u16)
        requires
            self.wf(),
        ensures
            r == (if address < 4096 {
                self@.cpu.mem[address as int]
            } else {
                0u16
            }),
    {
        if (address as usize) < self.cpu.memory.len() {
            self.cpu.memory[address as usize]
        } else {
            0
        }
    }

    /// Reload the assembled listing and restart the processor.
    pub fn reset(&mut self) -> (r: Messages)
        requires
            old(self).wf(),
        ensures
            final(self).wf(),
            final(self)@ == spec_machine_reset(old(self)@),
            r@ =~= seq![(Level::Info, "Machine reset"@)],
    {
        let mut messages = Messages::new();
        self.cpu.reset(&self.storage.assembled_program);
        messages.info("Machine reset");
        messages
    }
}

/// Resetting a machine twice leaves exactly the state of one reset.
pub proof fn lemma_reset_idempotent(m: MachineV)
    requires
        m.cpu.mem.len() == crate::cpu::mem_size(),
    ensures
        spec_machine_reset(spec_machine_reset(m)) == spec_machine_reset(m),
{
    let once = spec_machine_reset(m);
    let twice = spec_machine_reset(once);
    crate::cpu::lemma_spec_load_idempotent(m.cpu.mem, m.listing, m.listing.len() as int);
    assert(twice.cpu.mem =~= once.cpu.mem);
    assert(twice.cpu == once.cpu);
}

} // verus!
