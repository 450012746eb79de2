use mano_lib::cpu::CPU;
use mano_lib::message::Level;
use mano_lib::message::Messages;

#[test]
fn test_cir_then_cil_is_identity() {
    let mut cpu = CPU::new();
    let mut messages = Messages::new();
    cpu.reg.ac.set(0x8001);
    cpu.reg.e.set(1);
    cpu.cir(&mut messages);
    assert_eq!(cpu.reg.ac.get(), 0xC000);
    assert_eq!(cpu.reg.e.get(), 1);
    cpu.cil(&mut messages);
    assert_eq!(cpu.reg.ac.get(), 0x8001);
    assert_eq!(cpu.reg.e.get(), 1);
}

#[test]
fn test_loader_reports_bad_words_and_skips_empty() {
    let mut cpu = CPU::new();
    let listing: Vec<String> =
        vec!["7001".to_string(), String::new(), "ZZZZ".to_string(), "00FF".to_string()];
    let report = cpu.load_program_into_memory(&listing);
    assert!(report.has_errors());
    assert_eq!(report.error_count(), 1);
    assert!(matches!(report.entries[0].0, Level::Error));
    assert_eq!(report.entries[0].1, "Invalid instruction format: ZZZZ");

    cpu.reg.ar.set(0);
    assert_eq!(cpu.read_from_memory(), 0x7001);
    cpu.reg.ar.set(1);
    assert_eq!(cpu.read_from_memory(), 0); // empty entry leaves the word zero
    cpu.reg.ar.set(2);
    assert_eq!(cpu.read_from_memory(), 0); // bad entry writes nothing
    cpu.reg.ar.set(3);
    assert_eq!(cpu.read_from_memory(), 0x00FF);
}

#[test]
fn test_loader_reports_word_outside_memory() {
    let mut cpu = CPU::new();
    let mut listing = vec![String::new(); 4096];
    listing.push("7001".to_string());
    let report = cpu.load_program_into_memory(&listing);
    assert!(report.has_errors());
    assert_eq!(report.error_count(), 1);
    assert_eq!(report.entries[0].1, "Instruction address 4096 is outside memory");
}

#[test]
fn test_set_program_start_reports_address() {
    let mut cpu = CPU::new();
    let report = cpu.set_program_start(37);
    assert_eq!(cpu.reg.pc.get(), 37);
    assert_eq!(report.entries.len(), 1);
    assert!(matches!(report.entries[0].0, Level::Info));
    assert_eq!(report.entries[0].1, "Program will start at address 37");
}

#[test]
fn test_interrupt_cycle_saves_and_redirects() {
    let mut cpu = CPU::new();
    let mut messages = Messages::new();
    cpu.reg.pc.set(0x123);
    cpu.reg.ien.set(1);
    cpu.reg.r.set(1);
    cpu.reg.s.set(1);
    cpu.tick(&mut messages); // RT0: AR <- 0, TR <- PC
    cpu.tick(&mut messages); // RT1: M[AR] <- TR, PC <- 0
    cpu.tick(&mut messages); // RT2: PC <- PC + 1, IEN <- 0, R <- 0, SC <- 0
    cpu.reg.ar.set(0);
    assert_eq!(cpu.read_from_memory(), 0x123);
    assert_eq!(cpu.reg.pc.get(), 1);
    assert_eq!(cpu.reg.ien.get(), 0);
    assert_eq!(cpu.reg.r.get(), 0);
    assert_eq!(cpu.reg.sc.get(), 0);
}

#[test]
fn test_skip_instructions() {
    let mut cpu = CPU::new();
    let mut messages = Messages::new();

    cpu.reg.ac.set(0x7FFF);
    cpu.reg.pc.set(10);
    cpu.spa(&mut messages); // positive: skip
    assert_eq!(cpu.reg.pc.get(), 11);
    cpu.sna(&mut messages); // not negative: no skip
    assert_eq!(cpu.reg.pc.get(), 11);

    cpu.reg.ac.set(0x8000);
    cpu.sna(&mut messages); // negative: skip
    assert_eq!(cpu.reg.pc.get(), 12);
    cpu.spa(&mut messages); // not positive: no skip
    assert_eq!(cpu.reg.pc.get(), 12);

    cpu.cla(&mut messages);
    cpu.sza(&mut messages); // zero: skip
    assert_eq!(cpu.reg.pc.get(), 13);

    cpu.cle(&mut messages);
    cpu.sze(&mut messages); // E zero: skip
    assert_eq!(cpu.reg.pc.get(), 14);
}

#[test]
fn test_ion_iof_toggle_interrupt_enable() {
    let mut cpu = CPU::new();
    let mut messages = Messages::new();
    cpu.ion(&mut messages);
    assert_eq!(cpu.reg.ien.get(), 1);
    cpu.iof(&mut messages);
    assert_eq!(cpu.reg.ien.get(), 0);
}

#[test]
fn test_hlt_emits_halting_error() {
    let mut cpu = CPU::new();
    let mut messages = Messages::new();
    cpu.reg.s.set(1);
    cpu.hlt(&mut messages);
    assert_eq!(cpu.reg.s.get(), 0);
    let last = messages.entries.last().unwrap();
    assert!(matches!(last.0, Level::Error));
    assert_eq!(last.1, "Halting");
}

#[test]
fn test_unknown_io_selector_is_reported() {
    let mut cpu = CPU::new();
    let mut messages = Messages::new();
    cpu.reg.s.set(1);
    cpu.reg.ir.set(0xF001); // I/O encoding whose selector bit names no instruction
    cpu.reg.sc.set(3);
    cpu.tick(&mut messages);
    assert!(messages.has_errors());
    let last = messages.entries.last().unwrap();
    assert_eq!(last.1, "Unknown IO instruction: 0");
    assert_eq!(cpu.reg.sc.get(), 0);
}

#[test]
fn test_messages_combine_keeps_order_and_counts() {
    let mut a = Messages::new();
    a.info("one");
    a.error("two");
    let mut b = Messages::new();
    b.debug("three");
    b.error("four");
    a.combine(b);
    assert_eq!(a.entries.len(), 4);
    assert_eq!(a.entries[0].1, "one");
    assert_eq!(a.entries[1].1, "two");
    assert_eq!(a.entries[2].1, "three");
    assert_eq!(a.entries[3].1, "four");
    assert_eq!(a.error_count(), 2);
    assert!(a.has_errors());
}
