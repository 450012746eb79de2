use mano_lib::assembler;
use mano_lib::message::Level;
use mano_lib::message::Messages;
use mano_lib::storage::Storage;

fn lines_of(program: &[&str]) -> Vec<String> {
    program.iter().map(|s| s.to_string()).collect()
}

fn assembled(storage: &Storage) -> Vec<String> {
    storage.assembled_program.clone()
}

fn has_error_containing(messages: &Messages, needles: &[&str]) -> bool {
    messages.entries.iter().any(|(level, msg)| {
        matches!(level, Level::Error) && needles.iter().all(|n| msg.contains(n))
    })
}

/// Basic addition program: loads A, adds B, stores in C, then halts.
/// Tests ORG, labels, MRI instructions, RRI instruction, DEC pseudo-instructions, and END.
const BASIC_ADDITION_PROGRAM: &[&str] = &[
    "   ORG 0    /Origin of program is location 0",
    "   LDA A    /Load operand from location A",
    "   ADD B    /Add operand from location B",
    "   STA C    /Store sum in location C",
    "   HLT      /Halt computer",
    "A, DEC 83   /Decimal operand",
    "B, DEC -23  /Decimal operand",
    "C, DEC 0    /Sum stored in location C",
    "   END      /End of symbolic program",
];

/// Expected machine code output for basic addition program
const BASIC_ADDITION_EXPECTED: &[&str] = &[
    "2004", // LDA A (Load from address 4)
    "1005", // ADD B (Add from address 5)
    "3006", // STA C (Store to address 6)
    "7001", // HLT (Halt)
    "0053", // DEC 83 (Decimal 83 = 0x53)
    "FFE9", // DEC -23 (Two's complement of -23)
    "0000", // DEC 0
];

/// Program with invalid instruction to test error handling
const INVALID_INSTRUCTION_PROGRAM: &[&str] = &[
    "   ORG 0    /Origin of program is location 0",
    "   LDA A    /Valid instruction",
    "   BADOP B  /Invalid instruction - should cause error",
    "   HLT      /Valid instruction",
    "A, DEC 5    /Decimal operand",
    "B, DEC 10   /Decimal operand",
    "   END      /End of symbolic program",
];

#[test]
fn test_basic_addition_program_assembly() {
    let mut storage = Storage::new();
    let mut messages = Messages::new();

    let program_lines: Vec<String> = BASIC_ADDITION_PROGRAM.iter().map(|s| s.to_string()).collect();
    storage.load_program(program_lines, &mut messages);

    assembler::assemble(&mut storage, &mut messages);
    assert!(!messages.has_errors(), "Assembly should complete without errors");

    let assembled_len = storage.assembled_program.len();
    let expected_len = BASIC_ADDITION_EXPECTED.len();

    assert_eq!(assembled_len, expected_len, "Assembly should produce {} instructions", expected_len);

    for (i, expected) in BASIC_ADDITION_EXPECTED.iter().enumerate() {
        let actual = &storage.assembled_program[i];
        assert!(!actual.trim().is_empty(), "Instruction {} should not be empty", i);
        assert_eq!(actual, expected, "Instruction {} should match expected output", i);
    }
}

#[test]
fn test_invalid_instruction_error() {
    let mut storage = Storage::new();
    let mut messages = Messages::new();

    let program_lines: Vec<String> =
        INVALID_INSTRUCTION_PROGRAM.iter().map(|s| s.to_string()).collect();
    storage.load_program(program_lines, &mut messages);

    assembler::assemble(&mut storage, &mut messages);
    assert!(messages.has_errors(), "Assembly should fail with errors for invalid instruction");

    let has_badop_error = messages.entries.iter().any(|(level, msg)| {
        matches!(level, mano_lib::message::Level::Error)
            && msg.contains("Unknown instruction")
            && msg.contains("BADOP")
    });

    assert!(has_badop_error, "Should have error about unknown instruction 'BADOP'");
}

#[test]
fn test_assemble_end_only_program() {
    let mut storage = Storage::new();
    let mut messages = Messages::new();
    storage.load_program(lines_of(&["END"]), &mut messages);
    assembler::assemble(&mut storage, &mut messages);
    assert!(!messages.has_errors());
    assert_eq!(assembled(&storage).len(), 0);
}

#[test]
fn test_dec_and_hex_emission() {
    let mut storage = Storage::new();
    let mut messages = Messages::new();
    storage.load_program(
        lines_of(&["ORG 0", "DEC -23", "DEC 83", "HEX 7001", "END"]),
        &mut messages,
    );
    assembler::assemble(&mut storage, &mut messages);
    assert!(!messages.has_errors());
    assert_eq!(assembled(&storage), vec!["FFE9", "0053", "7001"]);
}

#[test]
fn test_duplicate_label_stops_pass_one() {
    let mut storage = Storage::new();
    let mut messages = Messages::new();
    storage.load_program(
        lines_of(&["ORG 0", "A, DEC 1", "A, DEC 2", "END"]),
        &mut messages,
    );
    assembler::assemble(&mut storage, &mut messages);
    assert!(messages.has_errors());
    assert!(has_error_containing(&messages, &["Label \"A\" is already used"]));
    // Pass one stopped before recording the second label, and pass
    // two never ran: nothing was assembled.
    assert_eq!(assembled(&storage).len(), 0);
}

#[test]
fn test_reserved_word_label_rejected() {
    let mut storage = Storage::new();
    let mut messages = Messages::new();
    storage.load_program(
        lines_of(&["ORG 0", "DEC, DEC 1", "END"]),
        &mut messages,
    );
    assembler::assemble(&mut storage, &mut messages);
    assert!(messages.has_errors());
    assert!(has_error_containing(&messages, &["Cannot use invalid label \"DEC\""]));
}

#[test]
fn test_label_on_origin_line_rejected() {
    // A label on the first line would sit at address origin - 1,
    // before the program; it is rejected whatever the origin.
    let mut storage = Storage::new();
    let mut messages = Messages::new();
    storage.load_program(lines_of(&["A, ORG 5", "HLT", "END"]), &mut messages);
    assembler::assemble(&mut storage, &mut messages);
    assert!(messages.has_errors());
    assert!(has_error_containing(&messages, &["Label \"A\" is before the program origin"]));
}

#[test]
fn test_pre_origin_label_rejected() {
    let mut storage = Storage::new();
    let mut messages = Messages::new();
    storage.load_program(lines_of(&["A, HLT", "END"]), &mut messages);
    assembler::assemble(&mut storage, &mut messages);
    assert!(messages.has_errors());
    assert!(has_error_containing(&messages, &["Label \"A\" is before the program origin"]));
}

#[test]
fn test_org_missing_operand() {
    let mut storage = Storage::new();
    let mut messages = Messages::new();
    storage.load_program(lines_of(&["ORG", "HLT", "END"]), &mut messages);
    assembler::assemble(&mut storage, &mut messages);
    assert!(messages.has_errors());
    assert!(has_error_containing(&messages, &["Missing address for ORG instruction"]));
}

#[test]
fn test_org_invalid_operand() {
    let mut storage = Storage::new();
    let mut messages = Messages::new();
    storage.load_program(lines_of(&["ORG XYZ", "HLT", "END"]), &mut messages);
    assembler::assemble(&mut storage, &mut messages);
    assert!(messages.has_errors());
    assert!(has_error_containing(&messages, &["Invalid address for ORG instruction"]));
}

#[test]
fn test_dec_operand_out_of_range() {
    let mut storage = Storage::new();
    let mut messages = Messages::new();
    storage.load_program(lines_of(&["ORG 0", "DEC 99999", "END"]), &mut messages);
    assembler::assemble(&mut storage, &mut messages);
    assert!(messages.has_errors());
    assert!(has_error_containing(
        &messages,
        &["Invalid operand \"99999\" for instruction \"DEC\""],
    ));
}

#[test]
fn test_missing_operand_for_dec() {
    let mut storage = Storage::new();
    let mut messages = Messages::new();
    storage.load_program(lines_of(&["ORG 0", "DEC", "END"]), &mut messages);
    assembler::assemble(&mut storage, &mut messages);
    assert!(messages.has_errors());
    assert!(has_error_containing(&messages, &["Missing operand"]));
}

#[test]
fn test_unknown_label_reported() {
    let mut storage = Storage::new();
    let mut messages = Messages::new();
    storage.load_program(lines_of(&["ORG 0", "LDA NOPE", "HLT", "END"]), &mut messages);
    assembler::assemble(&mut storage, &mut messages);
    assert!(messages.has_errors());
    assert!(has_error_containing(&messages, &["Unknown label \"NOPE\""]));
}

#[test]
fn test_indirect_bit_emission() {
    let mut storage = Storage::new();
    let mut messages = Messages::new();
    storage.load_program(
        lines_of(&["ORG 0", "LDA PTR i", "HLT", "PTR, HEX 0003", "VAL, HEX 00AB", "END"]),
        &mut messages,
    );
    assembler::assemble(&mut storage, &mut messages);
    assert!(!messages.has_errors());
    assert_eq!(assembled(&storage), vec!["A002", "7001", "0003", "00AB"]);
}

#[test]
fn test_error_count_note() {
    let mut storage = Storage::new();
    let mut messages = Messages::new();
    storage.load_program(
        lines_of(&["ORG 0", "BADOP A", "WORSE B", "HLT", "A, DEC 1", "B, DEC 2", "END"]),
        &mut messages,
    );
    assembler::assemble(&mut storage, &mut messages);
    assert!(messages.has_errors());
    assert_eq!(messages.error_count(), 2);
    let noted = messages
        .entries
        .iter()
        .any(|(level, msg)| matches!(level, Level::Info) && msg == "Encountered 2 errors");
    assert!(noted, "The error count should be reported");
}
