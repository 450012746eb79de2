use mano_lib::machine::Machine;
use mano_lib::message::Level;
use mano_lib::message::Messages;

fn lines_of(program: &[&str]) -> Vec<String> {
    program.iter().map(|s| s.to_string()).collect()
}

fn run_to_halt(machine: &mut Machine, max_ticks: usize) -> usize {
    let mut ticks: usize = 0;
    while !machine.is_halted() && ticks < max_ticks {
        let mut messages = Messages::new();
        machine.tick(&mut messages);
        ticks += 1;
    }
    ticks
}

#[test]
fn test_basic_addition_run() {
    let mut machine = Machine::new();
    let report = machine.prime(lines_of(&[
        "   ORG 0",
        "   LDA A",
        "   ADD B",
        "   STA C",
        "   HLT",
        "A, DEC 83",
        "B, DEC -23",
        "C, DEC 0",
        "   END",
    ]));
    assert!(!report.has_errors());
    assert!(machine.is_primed());
    assert_eq!(
        machine.get_assembled_program().as_slice(),
        &["2004", "1005", "3006", "7001", "0053", "FFE9", "0000"],
    );

    run_to_halt(&mut machine, 10000);
    assert!(machine.is_halted());

    let state = machine.get_state();
    assert_eq!(machine.get_memory_at_address(6), 60); // 0x003C
    assert_eq!(state.accumulator, 60);
    assert_eq!(state.program_counter, 4);
    assert!(state.is_halted);
    assert_eq!(state.memory_snapshot.len(), 32);
    assert_eq!(state.memory_snapshot[6], 60);
}

#[test]
fn test_indirect_addressing_run() {
    let mut machine = Machine::new();
    let report = machine.prime(lines_of(&[
        "ORG 0",
        "LDA PTR i",
        "HLT",
        "PTR, HEX 0003",
        "VAL, HEX 00AB",
        "END",
    ]));
    assert!(!report.has_errors());
    assert_eq!(machine.get_memory_at_address(0), 0xA002);
    assert_eq!(machine.get_memory_at_address(1), 0x7001);
    assert_eq!(machine.get_memory_at_address(2), 0x0003);
    assert_eq!(machine.get_memory_at_address(3), 0x00AB);

    run_to_halt(&mut machine, 10000);
    assert!(machine.is_halted());
    assert_eq!(machine.get_state().accumulator, 0x00AB);
}

#[test]
fn test_isz_skip_run() {
    // The branch-target operand `0` is no label, so assembly reports
    // it; the listing is still emitted, and an explicit reset loads
    // and starts the machine as a front-end debugger would.
    let mut machine = Machine::new();
    let report = machine.prime(lines_of(&[
        "ORG 0",
        "ISZ CNT",
        "BUN LOOP",
        "HLT",
        "LOOP, BUN 0",
        "CNT, DEC -1",
        "END",
    ]));
    assert!(report.has_errors());
    let _ = machine.reset();
    assert!(!machine.is_halted());

    run_to_halt(&mut machine, 10000);
    assert!(machine.is_halted());
    // One pass through ISZ made CNT zero, so BUN LOOP was skipped and
    // HLT executed with the accumulator untouched.
    assert_eq!(machine.get_memory_at_address(4), 0);
    assert_eq!(machine.get_state().accumulator, 0);
    assert_eq!(machine.get_state().program_counter, 3);
}

#[test]
fn test_unknown_instruction_prime_fails() {
    let mut machine = Machine::new();
    let report = machine.prime(lines_of(&[
        "ORG 0",
        "LDA A",
        "BADOP B",
        "HLT",
        "A, DEC 5",
        "B, DEC 10",
        "END",
    ]));
    assert!(report.has_errors());
    let seen = report.entries.iter().any(|(level, msg)| {
        matches!(level, Level::Error)
            && msg.contains("Unknown instruction")
            && msg.contains("BADOP")
    });
    assert!(seen);
    assert!(!machine.is_primed());
    assert!(machine.is_halted());
}

#[test]
fn test_halt_termination_within_four_ticks() {
    let mut machine = Machine::new();
    let report = machine.prime(lines_of(&["ORG 0", "HLT", "END"]));
    assert!(!report.has_errors());
    let ticks = run_to_halt(&mut machine, 4);
    assert!(machine.is_halted());
    assert!(ticks <= 4);
}

#[test]
fn test_reprime_restarts_micro_cycle() {
    // Priming resets the sequence counter, so a machine re-primed
    // mid-instruction starts from fetch and still halts within four
    // ticks.
    let mut machine = Machine::new();
    let program = lines_of(&["ORG 0", "HLT", "END"]);
    let report = machine.prime(program.clone());
    assert!(!report.has_errors());
    let mut messages = Messages::new();
    machine.tick(&mut messages);
    machine.tick(&mut messages);
    assert_eq!(machine.get_state().sequence_counter, 2);

    let report = machine.prime(program);
    assert!(!report.has_errors());
    assert_eq!(machine.get_state().sequence_counter, 0);
    let ticks = run_to_halt(&mut machine, 4);
    assert!(machine.is_halted());
    assert!(ticks <= 4);
}

#[test]
fn test_tick_after_halt_is_rejected() {
    let mut machine = Machine::new();
    let report = machine.prime(lines_of(&["ORG 0", "HLT", "END"]));
    assert!(!report.has_errors());
    run_to_halt(&mut machine, 10);
    assert!(machine.is_halted());

    let before = machine.get_state();
    let mut messages = Messages::new();
    machine.tick(&mut messages);
    assert!(messages.has_errors());
    assert_eq!(messages.entries.len(), 1);
    assert!(matches!(messages.entries[0].0, Level::Error));
    assert_eq!(messages.entries[0].1, "Machine halted, please reset");

    let after = machine.get_state();
    assert_eq!(after.program_counter, before.program_counter);
    assert_eq!(after.accumulator, before.accumulator);
    assert_eq!(after.sequence_counter, before.sequence_counter);
    assert!(after.is_halted);
}

#[test]
fn test_reset_twice_equals_once() {
    let mut machine = Machine::new();
    let report = machine.prime(lines_of(&[
        "   ORG 0",
        "   LDA A",
        "   HLT",
        "A, DEC 7",
        "   END",
    ]));
    assert!(!report.has_errors());
    run_to_halt(&mut machine, 10000);

    let _ = machine.reset();
    let once = machine.get_state();
    let mem_once: Vec<u16> = (0u16..8).map(|a| machine.get_memory_at_address(a)).collect();

    let _ = machine.reset();
    let twice = machine.get_state();
    let mem_twice: Vec<u16> = (0u16..8).map(|a| machine.get_memory_at_address(a)).collect();

    assert_eq!(once.program_counter, twice.program_counter);
    assert_eq!(once.accumulator, twice.accumulator);
    assert_eq!(once.instruction_register, twice.instruction_register);
    assert_eq!(once.address_register, twice.address_register);
    assert_eq!(once.data_register, twice.data_register);
    assert_eq!(once.extend_register, twice.extend_register);
    assert_eq!(once.sequence_counter, twice.sequence_counter);
    assert_eq!(once.is_halted, twice.is_halted);
    assert_eq!(mem_once, mem_twice);
}

#[test]
fn test_new_machine_rejects_tick() {
    let mut machine = Machine::new();
    assert!(machine.is_halted());
    assert!(!machine.is_primed());
    let mut messages = Messages::new();
    machine.tick(&mut messages);
    assert!(messages.has_errors());
}

#[test]
fn test_prime_failure_leaves_machine_unprimed() {
    let mut machine = Machine::new();
    let report = machine.prime(Vec::new());
    assert!(report.has_errors());
    assert!(!machine.is_primed());
    assert!(machine.is_halted());
    let seen = report
        .entries
        .iter()
        .any(|(level, msg)| matches!(level, Level::Error) && msg == "No source program loaded");
    assert!(seen);
}

#[test]
fn test_get_source_program_round_trip() {
    let mut machine = Machine::new();
    let program = lines_of(&["ORG 0", "HLT", "END"]);
    let _ = machine.prime(program.clone());
    assert_eq!(machine.get_source_program(), &program);
}
