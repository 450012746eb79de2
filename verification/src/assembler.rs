//! The two-pass assembler: lexing of source lines, the symbol-table
//! pass, and the code-emission pass.
//!
//! Pass one records the origin and every label's address; pass two
//! classifies each line and emits four-character hexadecimal words at
//! the right offsets. Both passes are proved equal to specification
//! functions that walk the source lines.

use crate::message::count_errors;
use crate::message::Entry;
use crate::message::Level;
use crate::message::Messages;
use crate::storage::Storage;
use crate::symbols::tab_contains;
use crate::symbols::tab_keys_unique;
use crate::symbols::tab_lookup;
use crate::symbols::tab_lookup_from;
use crate::symbols::SymbolTable;
use crate::text::all_dec_digits;
use crate::text::all_hex_digits;
use crate::text::dec_str;
use crate::text::dec_value;
use crate::text::end_trimmed;
use crate::text::find_char;
use crate::text::find_end_trimmed;
use crate::text::find_nonspace_from;
use crate::text::find_space_from;
use crate::text::first_ix;
use crate::text::first_nonspace_from;
use crate::text::first_space_from;
use crate::text::hex4;
use crate::text::hex_value;
use crate::text::lemma_end_trimmed;
use crate::text::lemma_first_ix_from;
use crate::text::lemma_first_nonspace_from;
use crate::text::lemma_first_space_from;
use crate::text::line_chars;
use crate::text::parse_dec_clamped;
use crate::text::parse_hex_u16;
use crate::text::subvec;
use crate::text::to_dec_string;
use crate::text::to_hex4;
use crate::text::trim_chars;
use crate::text::trim_spec;
use crate::text::chars_eq_str;
use vstd::prelude::*;

verus! {

/// One parsed source line, as the specifications see it: the
/// instruction token, the operand token, and whether the indirect
/// modifier followed them.
pub ghost struct LineV {
    pub instr: Seq<char>,
    pub operand: Option<Seq<char>>,
    pub indirect: bool,
}

/// The line up to its comment: everything before the first slash.
pub open spec fn line_cut(line: Seq<char>) -> Seq<char> {
    line.take(first_ix(line, '/'))
}

/// Parsing a line: strip the comment, step past a label's comma, and
/// read up to three whitespace-separated tokens. The third token
/// marks indirect addressing when it is exactly the letter `i`.
pub open spec fn parse_line_spec(line: Seq<char>) -> LineV {
    let cut = line_cut(line);
    let ci = first_ix(cut, ',');
    let start0 = if ci < cut.len() {
        ci + 1
    } else {
        0
    };
    let t0s = first_nonspace_from(cut, start0);
    let t0e = first_space_from(cut, t0s);
    let t1s = first_nonspace_from(cut, t0e);
    let t1e = first_space_from(cut, t1s);
    let t2s = first_nonspace_from(cut, t1e);
    let t2e = first_space_from(cut, t2s);
    LineV {
        instr: cut.subrange(t0s, t0e),
        operand: if t1s < cut.len() {
            Some(cut.subrange(t1s, t1e))
        } else {
            None
        },
        indirect: t2s < cut.len() && cut.subrange(t2s, t2e) == seq!['i'],
    }
}

/// Whether the line carries a label: a comma before the comment.
pub open spec fn line_has_label(line: Seq<char>) -> bool {
    let cut = line_cut(line);
    first_ix(cut, ',') < cut.len()
}

/// The label: the text before the comma, trimmed.
pub open spec fn label_of(line: Seq<char>) -> Seq<char> {
    let cut = line_cut(line);
    trim_spec(cut.take(first_ix(cut, ',')))
}

/// A parsed line, with each token also located in the original line
/// so that diagnostics can quote it.
struct ParsedInstruction {
    instruction: Vec<char>,
    operand: Option<Vec<char>>,
    indirect: bool,
    instr_start: usize,
    instr_end: usize,
    operand_start: usize,
    operand_end: usize,
}

impl View for ParsedInstruction {
    type V = LineV;

    closed spec fn view(&self) -> LineV {
        LineV {
            instr: self.instruction@,
            operand: match self.operand {
                Some(v) => Some(v@),
                None => None,
            },
            indirect: self.indirect,
        }
    }
}

impl ParsedInstruction {
    /// Whether the line held no instruction at all.
    fn is_empty(&self) -> (r: bool)
        ensures
            r == (self@.instr.len() == 0),
    {
        self.instruction.len() == 0
    }
}

/// Parse one line. The returned token windows lie inside the line.
fn parse_line_fast(line: &Vec<char>) -> (p: ParsedInstruction)
    ensures
        p@ == parse_line_spec(line@),
        p.instr_start <= p.instr_end <= line@.len(),
        line@.subrange(p.instr_start as int, p.instr_end as int) == p@.instr,
        p@.operand is Some ==> p.operand_start <= p.operand_end <= line@.len()
            && line@.subrange(p.operand_start as int, p.operand_end as int)
            == p@.operand->0,
{
    proof {
        lemma_first_ix_from(line@, '/', 0);
    }
    let slash = find_char(line, '/');
    let cut = subvec(line, 0, slash);
    proof {
        assert(cut@ =~= line_cut(line@));
    }
    let ci = find_char(&cut, ',');
    proof {
        lemma_first_ix_from(cut@, ',', 0);
    }
    let start0: usize = if ci < cut.len() {
        ci + 1
    } else {
        0
    };
    let t0s = find_nonspace_from(&cut, start0);
    proof {
        lemma_first_nonspace_from(cut@, start0 as int);
    }
    let t0e = find_space_from(&cut, t0s);
    proof {
        lemma_first_space_from(cut@, t0s as int);
    }
    let t1s = find_nonspace_from(&cut, t0e);
    proof {
        lemma_first_nonspace_from(cut@, t0e as int);
    }
    let t1e = find_space_from(&cut, t1s);
    proof {
        lemma_first_space_from(cut@, t1s as int);
    }
    let t2s = find_nonspace_from(&cut, t1e);
    proof {
        lemma_first_nonspace_from(cut@, t1e as int);
    }
    let t2e = find_space_from(&cut, t2s);
    proof {
        lemma_first_space_from(cut@, t2s as int);
    }
    let instruction = subvec(&cut, t0s, t0e);
    let operand = if t1s < cut.len() {
        Some(subvec(&cut, t1s, t1e))
    } else {
        None
    };
    let indirect = if t2s < cut.len() {
        let w = subvec(&cut, t2s, t2e);
        let r = chars_eq_str(&w, "i");
        proof {
            reveal_strlit("i");
            assert("i"@ =~= seq!['i']);
        }
        r
    } else {
        false
    };
    proof {
        assert(forall|a: int, b: int|
            0 <= a <= b <= cut@.len() ==> cut@.subrange(a, b) =~= line@.subrange(a, b));
    }
    ParsedInstruction {
        instruction,
        operand,
        indirect,
        instr_start: t0s,
        instr_end: t0e,
        operand_start: t1s,
        operand_end: t1e,
    }
}

/// Whether the token is one of the four pseudo-instructions.
pub open spec fn is_pseudo(tok: Seq<char>) -> bool {
    tok == "ORG"@ || tok == "HEX"@ || tok == "DEC"@ || tok == "END"@
}

/// The memory-reference opcodes by mnemonic.
pub open spec fn mri_code(tok: Seq<char>) -> Option<u16> {
    if tok == "AND"@ {
        Some(0x0000u16)
    } else if tok == "ADD"@ {
        Some(0x1000u16)
    } else if tok == "LDA"@ {
        Some(0x2000u16)
    } else if tok == "STA"@ {
        Some(0x3000u16)
    } else if tok == "BUN"@ {
        Some(0x4000u16)
    } else if tok == "BSA"@ {
        Some(0x5000u16)
    } else if tok == "ISZ"@ {
        Some(0x6000u16)
    } else {
        None
    }
}

/// The register-reference opcodes by mnemonic.
pub open spec fn rri_code(tok: Seq<char>) -> Option<u16> {
    if tok == "CLA"@ {
        Some(0x7800u16)
    } else if tok == "CLE"@ {
        Some(0x7400u16)
    } else if tok == "CMA"@ {
        Some(0x7200u16)
    } else if tok == "CME"@ {
        Some(0x7100u16)
    } else if tok == "CIR"@ {
        Some(0x7080u16)
    } else if tok == "CIL"@ {
        Some(0x7040u16)
    } else if tok == "INC"@ {
        Some(0x7020u16)
    } else if tok == "SPA"@ {
        Some(0x7010u16)
    } else if tok == "SNA"@ {
        Some(0x7008u16)
    } else if tok == "SZA"@ {
        Some(0x7004u16)
    } else if tok == "SZE"@ {
        Some(0x7002u16)
    } else if tok == "HLT"@ {
        Some(0x7001u16)
    } else {
        None
    }
}

/// The input-output opcodes by mnemonic.
pub open spec fn io_code(tok: Seq<char>) -> Option<u16> {
    if tok == "INP"@ {
        Some(0xF800u16)
    } else if tok == "OUT"@ {
        Some(0xF400u16)
    } else if tok == "SKI"@ {
        Some(0xF200u16)
    } else if tok == "SKO"@ {
        Some(0xF100u16)
    } else if tok == "ION"@ {
        Some(0xF080u16)
    } else if tok == "IOF"@ {
        Some(0xF040u16)
    } else {
        None
    }
}

/// Whether the token is a pseudo-instruction.
fn is_pseudo_tok(tok: &Vec<char>) -> (r: bool)
    ensures
        r == is_pseudo(tok@),
{
    chars_eq_str(tok, "ORG") || chars_eq_str(tok, "HEX") || chars_eq_str(tok, "DEC")
        || chars_eq_str(tok, "END")
}

/// The memory-reference opcode of the token, when it names one.
fn mri_opcode(tok: &Vec<char>) -> (r: Option<u16>)
    ensures
        r == mri_code(tok@),
{
    if chars_eq_str(tok, "AND") {
        Some(0x0000)
    } else if chars_eq_str(tok, "ADD") {
        Some(0x1000)
    } else if chars_eq_str(tok, "LDA") {
        Some(0x2000)
    } else if chars_eq_str(tok, "STA") {
        Some(0x3000)
    } else if chars_eq_str(tok, "BUN") {
        Some(0x4000)
    } else if chars_eq_str(tok, "BSA") {
        Some(0x5000)
    } else if chars_eq_str(tok, "ISZ") {
        Some(0x6000)
    } else {
        None
    }
}

/// The register-reference opcode of the token, when it names one.
fn rri_opcode(tok: &Vec<char>) -> (r: Option<u16>)
    ensures
        r == rri_code(tok@),
{
    if chars_eq_str(tok, "CLA") {
        Some(0x7800)
    } else if chars_eq_str(tok, "CLE") {
        Some(0x7400)
    } else if chars_eq_str(tok, "CMA") {
        Some(0x7200)
    } else if chars_eq_str(tok, "CME") {
        Some(0x7100)
    } else if chars_eq_str(tok, "CIR") {
        Some(0x7080)
    } else if chars_eq_str(tok, "CIL") {
        Some(0x7040)
    } else if chars_eq_str(tok, "INC") {
        Some(0x7020)
    } else if chars_eq_str(tok, "SPA") {
        Some(0x7010)
    } else if chars_eq_str(tok, "SNA") {
        Some(0x7008)
    } else if chars_eq_str(tok, "SZA") {
        Some(0x7004)
    } else if chars_eq_str(tok, "SZE") {
        Some(0x7002)
    } else if chars_eq_str(tok, "HLT") {
        Some(0x7001)
    } else {
        None
    }
}

/// The input-output opcode of the token, when it names one.
fn io_opcode(tok: &Vec<char>) -> (r: Option<u16>)
    ensures
        r == io_code(tok@),
{
    if chars_eq_str(tok, "INP") {
        Some(0xF800)
    } else if chars_eq_str(tok, "OUT") {
        Some(0xF400)
    } else if chars_eq_str(tok, "SKI") {
        Some(0xF200)
    } else if chars_eq_str(tok, "SKO") {
        Some(0xF100)
    } else if chars_eq_str(tok, "ION") {
        Some(0xF080)
    } else if chars_eq_str(tok, "IOF") {
        Some(0xF040)
    } else {
        None
    }
}

/// A run of `n` spaces.
pub open spec fn spaces(n: int) -> Seq<char> {
    Seq::new(
        if n < 0 {
            0
        } else {
            n as nat
        },
        |i: int| ' ',
    )
}

/// Four spaces followed by `extra` more.
fn pad_spaces(extra: usize) -> (r: String)
    ensures
        r@ =~= spaces(4 + extra as int),
{
    proof {
        reveal_strlit("    ");
    }
    let mut s = String::from_str("    ");
    let mut j: usize = 0;
    while j < extra
        invariant
            j <= extra,
            s@ =~= spaces(4 + j as int),
        decreases extra - j,
    {
        proof {
            reveal_strlit(" ");
        }
        s.append(" ");
        proof {
            assert(s@ =~= spaces(4 + j + 1));
        }
        j = j + 1;
    }
    s
}

/// The four entries that point a hard error at its source line: the
/// line's number, the line itself, and a caret under it.
pub open spec fn detailed_log(lines: Seq<Seq<char>>, i: int) -> Seq<Entry> {
    let num = dec_str(i);
    let pad = spaces(4 + num.len() as int);
    seq![
        (Level::Error, "Error at line "@ + num + ": "@),
        (Level::Error, " <"@ + num + "> "@ + trim_spec(lines[i])),
        (Level::Error, pad + "^"@),
        (Level::Error, pad),
    ]
}

/// Append the four entries of `detailed_log` for line `i`.
fn add_detailed_error(program: &Vec<String>, line_index: usize, messages: &mut Messages)
    requires
        line_index < program@.len(),
    ensures
        final(messages)@ =~= old(messages)@ + detailed_log(
            program.deep_view(),
            line_index as int,
        ),
{
    proof {
        assert(program.deep_view()[line_index as int] == program@[line_index as int]@);
    }
    let num = to_dec_string(line_index as u64);
    let mut e1 = String::from_str("Error at line ");
    e1.append(num.as_str());
    e1.append(": ");
    messages.error(e1.as_str());

    let line = &program[line_index];
    let chars = line_chars(line.as_str());
    let a = find_nonspace_from(&chars, 0);
    let b = find_end_trimmed(&chars);
    proof {
        lemma_first_nonspace_from(chars@, 0);
        lemma_end_trimmed(chars@);
    }
    let mut e2 = String::from_str(" <");
    e2.append(num.as_str());
    e2.append("> ");
    if a < b {
        let piece = line.as_str().substring_char(a, b);
        e2.append(piece);
    } else {
        proof {
            assert(trim_spec(chars@) =~= Seq::<char>::empty());
        }
    }
    messages.error(e2.as_str());

    let pl = num.as_str().unicode_len();
    let pad = pad_spaces(pl);
    let mut e3 = pad.clone();
    e3.append("^");
    messages.error(e3.as_str());
    messages.error(pad.as_str());
    proof {
        assert(final(messages)@ =~= old(messages)@ + detailed_log(
            program.deep_view(),
            line_index as int,
        ));
    }
}

/// The index of the first line whose parse holds an instruction, or
/// the number of lines.
pub open spec fn first_code_ix(lines: Seq<Seq<char>>, i: int) -> int
    decreases lines.len() - i,
{
    if i < 0 || i >= lines.len() {
        lines.len() as int
    } else if parse_line_spec(lines[i]).instr.len() == 0 {
        first_code_ix(lines, i + 1)
    } else {
        i
    }
}

pub proof fn lemma_first_code_ix(lines: Seq<Seq<char>>, i: int)
    requires
        0 <= i <= lines.len(),
    ensures
        i <= first_code_ix(lines, i) <= lines.len(),
        forall|j: int|
            i <= j < first_code_ix(lines, i) ==> parse_line_spec(lines[j]).instr.len() == 0,
        first_code_ix(lines, i) < lines.len() ==> parse_line_spec(
            lines[first_code_ix(lines, i)],
        ).instr.len() != 0,
    decreases lines.len() - i,
{
    if i < lines.len() && parse_line_spec(lines[i]).instr.len() == 0 {
        lemma_first_code_ix(lines, i + 1);
    }
}

/// What pass one produces: the symbol table and its diagnostics.
pub ghost struct PassOneV {
    pub tab: Seq<(Seq<char>, u32)>,
    pub log: Seq<Entry>,
}

/// The label scan of pass one from line `i` on, with `tab` built so
/// far: record each label at `origin + line - 1`, and stop hard on a
/// reserved word, a reused label, a label on the first line — whose
/// address would fall before the origin — or a label no address can
/// fit.
pub open spec fn spec_p1_scan(
    lines: Seq<Seq<char>>,
    origin: u32,
    i: int,
    tab: Seq<(Seq<char>, u32)>,
) -> PassOneV
    decreases lines.len() - i,
{
    if i < 0 || i >= lines.len() {
        PassOneV { tab, log: Seq::empty() }
    } else {
        let p = parse_line_spec(lines[i]);
        if p.instr.len() == 0 {
            spec_p1_scan(lines, origin, i + 1, tab)
        } else if p.instr == "END"@ {
            PassOneV { tab, log: Seq::empty() }
        } else if line_has_label(lines[i]) {
            let label = label_of(lines[i]);
            if is_pseudo(label) {
                PassOneV {
                    tab,
                    log: seq![
                        (Level::Error, "Cannot use invalid label \""@ + label + "\""@),
                    ] + detailed_log(lines, i),
                }
            } else if tab_contains(tab, label) {
                PassOneV {
                    tab,
                    log: seq![
                        (Level::Error, "Label \""@ + label + "\" is already used"@),
                    ] + detailed_log(lines, i),
                }
            } else if i == 0 {
                PassOneV {
                    tab,
                    log: seq![
                        (Level::Error, "Label \""@ + label + "\" is before the program origin"@),
                    ],
                }
            } else if origin + i - 1 > 0xFFFFFFFF {
                PassOneV {
                    tab,
                    log: seq![
                        (Level::Error, "Label \""@ + label + "\" address is out of range"@),
                    ],
                }
            } else {
                spec_p1_scan(lines, origin, i + 1, tab.push((label, (origin + i - 1) as u32)))
            }
        } else {
            spec_p1_scan(lines, origin, i + 1, tab)
        }
    }
}

/// All of pass one: find the origin, seed the table with it, then
/// scan for labels. An empty source leaves the table empty.
pub open spec fn spec_pass_one(lines: Seq<Seq<char>>) -> PassOneV {
    if lines.len() == 0 {
        PassOneV { tab: Seq::empty(), log: Seq::empty() }
    } else {
        let k = first_code_ix(lines, 0);
        if k < lines.len() && parse_line_spec(lines[k]).instr == "ORG"@ {
            match parse_line_spec(lines[k]).operand {
                Option::None => PassOneV {
                    tab: Seq::empty(),
                    log: seq![(Level::Error, "Missing address for ORG instruction"@)],
                },
                Option::Some(op) => {
                    if op.len() > 0 && all_hex_digits(op) && hex_value(op) <= 0xFFFF {
                        spec_p1_scan(
                            lines,
                            hex_value(op) as u32,
                            0,
                            seq![("ORG"@, hex_value(op) as u32)],
                        )
                    } else {
                        PassOneV {
                            tab: Seq::empty(),
                            log: seq![(Level::Error, "Invalid address for ORG instruction"@)],
                        }
                    }
                },
            }
        } else {
            spec_p1_scan(lines, 0, 0, seq![("ORG"@, 0u32)])
        }
    }
}

/// Pass one: build the address-symbol table from the source program.
/// The table and the returned diagnostics are exactly those of
/// `spec_pass_one` on the source lines.
pub fn pass_one(storage: &mut Storage) -> (r: Messages)
    ensures
        final(storage).address_symbol_table@ == spec_pass_one(
            old(storage).source_program.deep_view(),
        ).tab,
        r@ == spec_pass_one(old(storage).source_program.deep_view()).log,
        final(storage).source_program == old(storage).source_program,
        final(storage).assembled_program == old(storage).assembled_program,
{
    let ghost lines = old(storage).source_program.deep_view();
    let mut messages = Messages::new();
    storage.address_symbol_table.clear();
    let n = storage.source_program.len();
    proof {
        assert(lines.len() == n);
    }
    if n == 0 {
        proof {
            assert(storage.address_symbol_table@ =~= spec_pass_one(lines).tab);
            assert(messages@ =~= spec_pass_one(lines).log);
        }
        return messages;
    }
    // Find the first line that holds an instruction at all.
    let mut k: usize = 0;
    let mut first_parse: Option<ParsedInstruction> = None;
    while k < n && first_parse.is_none()
        invariant
            k <= n,
            n == lines.len(),
            lines == storage.source_program.deep_view(),
            n == storage.source_program@.len(),
            forall|j: int| 0 <= j < k ==> parse_line_spec(lines[j]).instr.len() == 0,
            first_parse is Some ==> k < n && first_parse->0@ == parse_line_spec(lines[k as int])
                && first_parse->0@.instr.len() != 0,
        decreases n - k, (if first_parse is None { 1int } else { 0int }),
    {
        proof {
            assert(lines[k as int] == storage.source_program@[k as int]@);
        }
        let chars = line_chars(storage.source_program[k].as_str());
        let p = parse_line_fast(&chars);
        if !p.is_empty() {
            first_parse = Some(p);
        } else {
            k = k + 1;
        }
    }
    proof {
        lemma_first_code_ix(lines, 0);
        assert(first_code_ix(lines, 0) == k as int);
    }
    // Determine the origin; a first instruction other than ORG leaves
    // it at zero.
    let mut origin: u32 = 0;
    let mut org_is_first = false;
    match &first_parse {
        Some(p) => {
            if chars_eq_str(&p.instruction, "ORG") {
                org_is_first = true;
                match &p.operand {
                    Some(op) => {
                        match parse_hex_u16(op) {
                            Some(value) => {
                                origin = value as u32;
                            },
                            None => {
                                messages.error("Invalid address for ORG instruction");
                                return messages;
                            },
                        }
                    },
                    None => {
                        messages.error("Missing address for ORG instruction");
                        return messages;
                    },
                }
            }
        },
        None => {},
    }
    let org_key = line_chars("ORG");
    proof {
        reveal_strlit("ORG");
        assert(!tab_contains(storage.address_symbol_table@, org_key@));
    }
    storage.address_symbol_table.insert(org_key, origin);
    let ghost tab0 = seq![("ORG"@, origin)];
    proof {
        assert(storage.address_symbol_table@ =~= tab0);
        assert(spec_pass_one(lines) == spec_p1_scan(lines, origin, 0, tab0));
    }
    // Scan every line for a label until END.
    let mut i: usize = 0;
    let mut done = false;
    while i < n && !done
        invariant
            i <= n,
            n == lines.len(),
            lines == storage.source_program.deep_view(),
            n == storage.source_program@.len(),
            messages@ =~= Seq::<Entry>::empty(),
            spec_pass_one(lines) == spec_p1_scan(lines, origin, 0, tab0),
            spec_p1_scan(lines, origin, i as int, storage.address_symbol_table@) == spec_p1_scan(
                lines,
                origin,
                0,
                tab0,
            ),
            done ==> spec_p1_scan(lines, origin, i as int, storage.address_symbol_table@)
                == (PassOneV { tab: storage.address_symbol_table@, log: Seq::<Entry>::empty() }),
            storage.source_program == old(storage).source_program,
            storage.assembled_program == old(storage).assembled_program,
        decreases n - i, (if done { 0int } else { 1int }),
    {
        proof {
            assert(lines[i as int] == storage.source_program@[i as int]@);
        }
        let chars = line_chars(storage.source_program[i].as_str());
        let p = parse_line_fast(&chars);
        if p.is_empty() {
            i = i + 1;
        } else if chars_eq_str(&p.instruction, "END") {
            done = true;
        } else {
            // A label sits before a comma in the uncommented text.
            proof {
                lemma_first_ix_from(chars@, '/', 0);
            }
            let slash = find_char(&chars, '/');
            let cut = subvec(&chars, 0, slash);
            proof {
                assert(cut@ =~= line_cut(lines[i as int]));
                lemma_first_ix_from(cut@, ',', 0);
            }
            let ci = find_char(&cut, ',');
            if ci < cut.len() {
                let pre = subvec(&cut, 0, ci);
                proof {
                    assert(pre@ =~= line_cut(lines[i as int]).take(
                        first_ix(line_cut(lines[i as int]), ','),
                    ));
                }
                let label = trim_chars(&pre);
                // The label's own window in the line, for diagnostics.
                let la = find_nonspace_from(&pre, 0);
                let lb = find_end_trimmed(&pre);
                proof {
                    lemma_first_nonspace_from(pre@, 0);
                    lemma_end_trimmed(pre@);
                    assert(label@ == label_of(lines[i as int]));
                    assert(line_has_label(lines[i as int]));
                    if la < lb {
                        assert(pre@.subrange(la as int, lb as int) =~= lines[i as int].subrange(
                            la as int,
                            lb as int,
                        ));
                        assert(label@ == lines[i as int].subrange(la as int, lb as int));
                    } else {
                        assert(label@ =~= Seq::<char>::empty());
                    }
                }
                let ghost labelv = label_of(lines[i as int]);
                if is_pseudo_tok(&label) {
                    let mut text = String::from_str("Cannot use invalid label \"");
                    if la < lb {
                        text.append(storage.source_program[i].as_str().substring_char(la, lb));
                    }
                    text.append("\"");
                    proof {
                        assert(text@ =~= "Cannot use invalid label \""@ + labelv + "\""@);
                    }
                    messages.error(text.as_str());
                    add_detailed_error(&storage.source_program, i, &mut messages);
                    proof {
                        assert(messages@ =~= seq![
                            (Level::Error, "Cannot use invalid label \""@ + labelv + "\""@),
                        ] + detailed_log(lines, i as int));
                    }
                    return messages;
                } else if storage.address_symbol_table.contains(&label) {
                    let mut text = String::from_str("Label \"");
                    if la < lb {
                        text.append(storage.source_program[i].as_str().substring_char(la, lb));
                    }
                    text.append("\" is already used");
                    proof {
                        assert(text@ =~= "Label \""@ + labelv + "\" is already used"@);
                    }
                    messages.error(text.as_str());
                    add_detailed_error(&storage.source_program, i, &mut messages);
                    proof {
                        assert(messages@ =~= seq![
                            (Level::Error, "Label \""@ + labelv + "\" is already used"@),
                        ] + detailed_log(lines, i as int));
                    }
                    return messages;
                } else if i == 0 {
                    let mut text = String::from_str("Label \"");
                    if la < lb {
                        text.append(storage.source_program[i].as_str().substring_char(la, lb));
                    }
                    text.append("\" is before the program origin");
                    proof {
                        assert(text@ =~= "Label \""@ + labelv + "\" is before the program origin"@);
                    }
                    messages.error(text.as_str());
                    proof {
                        assert(messages@ =~= seq![
                            (Level::Error, "Label \""@ + labelv + "\" is before the program origin"@),
                        ]);
                    }
                    return messages;
                } else if i >= 1 && i - 1 > 0xFFFFFFFFusize - origin as usize {
                    let mut text = String::from_str("Label \"");
                    if la < lb {
                        text.append(storage.source_program[i].as_str().substring_char(la, lb));
                    }
                    text.append("\" address is out of range");
                    proof {
                        assert(text@ =~= "Label \""@ + labelv + "\" address is out of range"@);
                    }
                    messages.error(text.as_str());
                    proof {
                        assert(messages@ =~= seq![
                            (Level::Error, "Label \""@ + labelv + "\" address is out of range"@),
                        ]);
                    }
                    return messages;
                } else {
                    let address: u32 = (origin as usize + (i - 1)) as u32;
                    storage.address_symbol_table.insert(label, address);
                    i = i + 1;
                }
            } else {
                i = i + 1;
            }
        }
    }
    messages
}

/// A sixteen-bit word read from a hexadecimal operand, when the
/// operand is one.
pub open spec fn hex_word_of(op: Seq<char>) -> Option<u16> {
    if op.len() > 0 && all_hex_digits(op) && hex_value(op) <= 0xFFFF {
        Some(hex_value(op) as u16)
    } else {
        None
    }
}

/// A sixteen-bit two's-complement word read from a signed decimal
/// operand in `[-32768, 32767]`, when the operand is one.
pub open spec fn dec_word_of(op: Seq<char>) -> Option<u16> {
    if op.len() == 0 {
        None
    } else {
        let neg = op[0] == '-';
        let ds = if op[0] == '-' || op[0] == '+' {
            op.skip(1)
        } else {
            op
        };
        if ds.len() == 0 || !all_dec_digits(ds) {
            None
        } else {
            let mag = dec_value(ds);
            if neg {
                if mag == 0 {
                    Some(0u16)
                } else if mag <= 32768 {
                    Some((0x10000 - mag) as u16)
                } else {
                    None
                }
            } else {
                if mag <= 32767 {
                    Some(mag as u16)
                } else {
                    None
                }
            }
        }
    }
}

/// Parse a signed decimal operand into its two's-complement word.
fn parse_dec_word(v: &Vec<char>) -> (r: Option<u16>)
    ensures
        r == dec_word_of(v@),
{
    if v.len() == 0 {
        return None;
    }
    let c0 = v[0];
    let neg = c0 == '-';
    let from: usize = if c0 == '-' || c0 == '+' {
        1
    } else {
        0
    };
    proof {
        if from == 0 {
            assert(v@.skip(0) =~= v@);
        }
    }
    match parse_dec_clamped(v, from) {
        None => None,
        Some(mag) => {
            if neg {
                if mag == 0 {
                    Some(0)
                } else if mag <= 32768 {
                    Some((0x10000u32 - mag) as u16)
                } else {
                    None
                }
            } else {
                if mag <= 32767 {
                    Some(mag as u16)
                } else {
                    None
                }
            }
        },
    }
}

/// The listing with `s` at position `loc`, grown with empty entries
/// as needed so that the position exists.
pub open spec fn listing_write(l: Seq<Seq<char>>, loc: int, s: Seq<char>) -> Seq<Seq<char>> {
    if 0 <= loc < l.len() {
        l.update(loc, s)
    } else if loc >= l.len() {
        l + Seq::new((loc - l.len()) as nat, |j: int| Seq::<char>::empty()).push(s)
    } else {
        l
    }
}

/// Grow the listing to reach position `loc`, then place `text` there.
fn listing_put(listing: &mut Vec<String>, loc: usize, text: String)
    requires
        loc < usize::MAX,
    ensures
        final(listing).deep_view() == listing_write(old(listing).deep_view(), loc as int, text@),
{
    let ghost pre = old(listing).deep_view();
    while listing.len() <= loc
        invariant
            loc < usize::MAX,
            pre.len() <= listing.deep_view().len() <= if pre.len() > loc {
                pre.len() as int
            } else {
                (loc + 1) as int
            },
            listing.deep_view() =~= pre + Seq::new(
                (listing.deep_view().len() - pre.len()) as nat,
                |j: int| Seq::<char>::empty(),
            ),
        decreases loc + 1 - listing.deep_view().len(),
    {
        let ghost prev = listing.deep_view();
        listing.push(String::new());
        proof {
            assert(listing.deep_view() =~~= prev.push(Seq::<char>::empty()));
            assert(prev.push(Seq::<char>::empty()) =~~= pre + Seq::new(
                (prev.len() + 1 - pre.len()) as nat,
                |j: int| Seq::<char>::empty(),
            ));
        }
    }
    let ghost grown = listing.deep_view();
    listing[loc] = text;
    proof {
        assert(listing.deep_view() =~~= grown.update(loc as int, text@));
        if pre.len() > loc {
            assert(grown =~~= pre);
            assert(grown.update(loc as int, text@) =~~= listing_write(pre, loc as int, text@));
        } else {
            assert(grown.update(loc as int, text@) =~~= pre + Seq::new(
                (loc - pre.len()) as nat,
                |j: int| Seq::<char>::empty(),
            ).push(text@));
        }
        assert(listing.deep_view() =~~= listing_write(pre, loc as int, text@));
    }
}

/// What pass two produces: the assembled listing and its diagnostics.
pub ghost struct PassTwoV {
    pub listing: Seq<Seq<char>>,
    pub log: Seq<Entry>,
}

/// The emission scan of pass two from line `i` on, with the cursor
/// and the listing built so far: classify each line, emit its word,
/// and collect an error for each line that cannot be emitted.
pub open spec fn spec_p2_scan(
    lines: Seq<Seq<char>>,
    tab: Seq<(Seq<char>, u32)>,
    i: int,
    cursor: int,
    listing: Seq<Seq<char>>,
) -> PassTwoV
    decreases lines.len() - i,
{
    if i < 0 || i >= lines.len() {
        PassTwoV { listing, log: Seq::empty() }
    } else {
        let p = parse_line_spec(lines[i]);
        if p.instr.len() == 0 {
            spec_p2_scan(lines, tab, i + 1, cursor, listing)
        } else if p.instr == "ORG"@ {
            spec_p2_scan(lines, tab, i + 1, cursor, listing)
        } else if p.instr == "END"@ {
            PassTwoV { listing, log: Seq::empty() }
        } else if p.instr == "DEC"@ || p.instr == "HEX"@ {
            match p.operand {
                Option::None => {
                    let rest = spec_p2_scan(lines, tab, i + 1, cursor + 1, listing);
                    PassTwoV {
                        listing: rest.listing,
                        log: seq![(Level::Error, "Missing operand"@)] + rest.log,
                    }
                },
                Option::Some(op) => {
                    let w = if p.instr == "DEC"@ {
                        dec_word_of(op)
                    } else {
                        hex_word_of(op)
                    };
                    match w {
                        Option::Some(word) => {
                            spec_p2_scan(
                                lines,
                                tab,
                                i + 1,
                                cursor + 1,
                                listing_write(listing, cursor, hex4(word)),
                            )
                        },
                        Option::None => {
                            let rest = spec_p2_scan(lines, tab, i + 1, cursor + 1, listing);
                            PassTwoV {
                                listing: rest.listing,
                                log: seq![
                                    (
                                        Level::Error,
                                        "Invalid operand \""@ + op + "\" for instruction \""@
                                            + p.instr + "\""@,
                                    ),
                                ] + rest.log,
                            }
                        },
                    }
                },
            }
        } else if mri_code(p.instr) is Some {
            let base = mri_code(p.instr)->0;
            let label = match p.operand {
                Option::Some(op) => op,
                Option::None => Seq::<char>::empty(),
            };
            let missing_log: Seq<Entry> = if p.operand is None {
                seq![(Level::Error, "Missing operand for memory reference instruction"@)]
            } else {
                Seq::empty()
            };
            let known = tab_contains(tab, label);
            let unknown_log: Seq<Entry> = if known {
                Seq::empty()
            } else {
                seq![(Level::Error, "Unknown label \""@ + label + "\""@)]
            };
            let addr = if known {
                tab_lookup(tab, label)
            } else {
                0u32
            };
            let word = (base + addr % 0x1000 + if p.indirect {
                0x8000int
            } else {
                0int
            }) as u16;
            let rest = spec_p2_scan(
                lines,
                tab,
                i + 1,
                cursor + 1,
                listing_write(listing, cursor, hex4(word)),
            );
            PassTwoV { listing: rest.listing, log: missing_log + unknown_log + rest.log }
        } else if rri_code(p.instr) is Some {
            spec_p2_scan(
                lines,
                tab,
                i + 1,
                cursor + 1,
                listing_write(listing, cursor, hex4(rri_code(p.instr)->0)),
            )
        } else if io_code(p.instr) is Some {
            spec_p2_scan(
                lines,
                tab,
                i + 1,
                cursor + 1,
                listing_write(listing, cursor, hex4(io_code(p.instr)->0)),
            )
        } else {
            let rest = spec_p2_scan(lines, tab, i + 1, cursor + 1, listing);
            PassTwoV {
                listing: rest.listing,
                log: seq![
                    (Level::Error, "Unknown instruction \""@ + p.instr + "\""@),
                ] + rest.log,
            }
        }
    }
}

/// All of pass two: read the origin from the table, scan the lines,
/// and close with a count of the errors met.
pub open spec fn spec_pass_two(lines: Seq<Seq<char>>, tab: Seq<(Seq<char>, u32)>) -> PassTwoV {
    let has_org = tab_contains(tab, "ORG"@);
    let origin = if has_org {
        tab_lookup(tab, "ORG"@)
    } else {
        0u32
    };
    let pre: Seq<Entry> = if has_org {
        Seq::empty()
    } else {
        seq![(Level::Error, "Address symbol table does not contain entry for ORG"@)]
    };
    let scan = spec_p2_scan(lines, tab, 0, origin as int, Seq::empty());
    let all = pre + scan.log;
    let n = count_errors(all);
    let tail: Seq<Entry> = if n == 1 {
        seq![(Level::Info, "Encountered 1 error"@)]
    } else if n > 1 {
        seq![(Level::Info, "Encountered "@ + dec_str(n) + " errors"@)]
    } else {
        Seq::empty()
    };
    PassTwoV { listing: scan.listing, log: all + tail }
}

/// Pass two: emit the assembled listing from the source program and
/// the symbol table. The listing and the returned diagnostics are
/// exactly those of `spec_pass_two`.
pub fn pass_two(machine: &mut Storage) -> (r: Messages)
    requires
        old(machine).source_program@.len() <= usize::MAX - 0x10000,
        tab_lookup(old(machine).address_symbol_table@, "ORG"@) <= 0xFFFF,
    ensures
        final(machine).assembled_program.deep_view() == spec_pass_two(
            old(machine).source_program.deep_view(),
            old(machine).address_symbol_table@,
        ).listing,
        r@ == spec_pass_two(
            old(machine).source_program.deep_view(),
            old(machine).address_symbol_table@,
        ).log,
        final(machine).source_program == old(machine).source_program,
        final(machine).address_symbol_table == old(machine).address_symbol_table,
{
    let ghost lines = old(machine).source_program.deep_view();
    let ghost tabv = old(machine).address_symbol_table@;
    let mut messages = Messages::new();
    machine.assembled_program.clear();
    proof {
        assert(machine.assembled_program.deep_view() =~= Seq::<Seq<char>>::empty());
    }

    let org_key = line_chars("ORG");
    let mut origin: u32 = 0;
    match machine.address_symbol_table.get(&org_key) {
        Some(value) => {
            origin = value;
        },
        None => {
            messages.error("Address symbol table does not contain entry for ORG");
        },
    }
    let ghost pre_log = messages@;
    let ghost full = spec_p2_scan(lines, tabv, 0, origin as int, Seq::<Seq<char>>::empty());

    let n = machine.source_program.len();
    let mut cursor: usize = origin as usize;
    let mut i: usize = 0;
    let mut done = false;
    while i < n && !done
        invariant
            i <= n,
            n == lines.len(),
            lines == machine.source_program.deep_view(),
            n == machine.source_program@.len(),
            n <= usize::MAX - 0x10000,
            origin <= 0xFFFF,
            cursor <= origin + i,
            tabv == machine.address_symbol_table@,
            full == spec_p2_scan(lines, tabv, 0, origin as int, Seq::<Seq<char>>::empty()),
            full.listing == spec_p2_scan(
                lines,
                tabv,
                i as int,
                cursor as int,
                machine.assembled_program.deep_view(),
            ).listing,
            pre_log + full.log =~= messages@ + spec_p2_scan(
                lines,
                tabv,
                i as int,
                cursor as int,
                machine.assembled_program.deep_view(),
            ).log,
            done ==> spec_p2_scan(
                lines,
                tabv,
                i as int,
                cursor as int,
                machine.assembled_program.deep_view(),
            ) == (PassTwoV {
                listing: machine.assembled_program.deep_view(),
                log: Seq::<Entry>::empty(),
            }),
            machine.source_program == old(machine).source_program,
            machine.address_symbol_table == old(machine).address_symbol_table,
        decreases n - i, (if done {
            0int
        } else {
            1int
        }),
    {
        proof {
            assert(lines[i as int] == machine.source_program@[i as int]@);
        }
        let chars = line_chars(machine.source_program[i].as_str());
        let p = parse_line_fast(&chars);
        if p.is_empty() {
            i = i + 1;
        } else if chars_eq_str(&p.instruction, "ORG") {
            i = i + 1;
        } else if chars_eq_str(&p.instruction, "END") {
            done = true;
        } else if chars_eq_str(&p.instruction, "DEC") || chars_eq_str(&p.instruction, "HEX") {
            let is_dec = chars_eq_str(&p.instruction, "DEC");
            match &p.operand {
                None => {
                    messages.error("Missing operand");
                    cursor = cursor + 1;
                    i = i + 1;
                },
                Some(op) => {
                    let word_opt = if is_dec {
                        parse_dec_word(op)
                    } else {
                        parse_hex_u16(op)
                    };
                    match word_opt {
                        Some(word) => {
                            listing_put(&mut machine.assembled_program, cursor, to_hex4(word));
                            cursor = cursor + 1;
                            i = i + 1;
                        },
                        None => {
                            let mut text = String::from_str("Invalid operand \"");
                            text.append(
                                machine.source_program[i].as_str().substring_char(
                                    p.operand_start,
                                    p.operand_end,
                                ),
                            );
                            text.append("\" for instruction \"");
                            text.append(
                                machine.source_program[i].as_str().substring_char(
                                    p.instr_start,
                                    p.instr_end,
                                ),
                            );
                            text.append("\"");
                            proof {
                                assert(text@ =~= "Invalid operand \""@ + p@.operand->0
                                    + "\" for instruction \""@ + p@.instr + "\""@);
                            }
                            messages.error(text.as_str());
                            cursor = cursor + 1;
                            i = i + 1;
                        },
                    }
                },
            }
        } else {
            let mri = mri_opcode(&p.instruction);
            let rri = rri_opcode(&p.instruction);
            let io = io_opcode(&p.instruction);
            match mri {
                Some(base) => {
                    let empty_label: Vec<char> = Vec::new();
                    let missing = match &p.operand {
                        Some(_) => false,
                        None => true,
                    };
                    if missing {
                        messages.error("Missing operand for memory reference instruction");
                    }
                    let label: &Vec<char> = match &p.operand {
                        Some(op) => op,
                        None => &empty_label,
                    };
                    let addr: u32 = match machine.address_symbol_table.get(label) {
                        Some(a) => a,
                        None => {
                            let mut text = String::from_str("Unknown label \"");
                            if !missing {
                                text.append(
                                    machine.source_program[i].as_str().substring_char(
                                        p.operand_start,
                                        p.operand_end,
                                    ),
                                );
                            }
                            text.append("\"");
                            proof {
                                assert(text@ =~= "Unknown label \""@ + label@ + "\""@);
                            }
                            messages.error(text.as_str());
                            0
                        },
                    };
                    let word: u16 = base + (addr % 0x1000) as u16 + (if p.indirect {
                        0x8000u16
                    } else {
                        0u16
                    });
                    listing_put(&mut machine.assembled_program, cursor, to_hex4(word));
                    cursor = cursor + 1;
                    i = i + 1;
                },
                None => {
                    match rri {
                        Some(code) => {
                            listing_put(&mut machine.assembled_program, cursor, to_hex4(code));
                            cursor = cursor + 1;
                            i = i + 1;
                        },
                        None => {
                            match io {
                                Some(code) => {
                                    listing_put(
                                        &mut machine.assembled_program,
                                        cursor,
                                        to_hex4(code),
                                    );
                                    cursor = cursor + 1;
                                    i = i + 1;
                                },
                                None => {
                                    let mut text = String::from_str("Unknown instruction \"");
                                    text.append(
                                        machine.source_program[i].as_str().substring_char(
                                            p.instr_start,
                                            p.instr_end,
                                        ),
                                    );
                                    text.append("\"");
                                    proof {
                                        assert(text@ =~= "Unknown instruction \""@ + p@.instr
                                            + "\""@);
                                    }
                                    messages.error(text.as_str());
                                    cursor = cursor + 1;
                                    i = i + 1;
                                },
                            }
                        },
                    }
                },
            }
        }
    }
    // Close with the number of errors encountered, when any were.
    let n_err = messages.error_count();
    proof {
        assert(messages@ =~= pre_log + spec_p2_scan(
            lines,
            tabv,
            0,
            origin as int,
            Seq::<Seq<char>>::empty(),
        ).log);
    }
    if n_err == 1 {
        messages.info("Encountered 1 error");
    } else if n_err > 1 {
        let mut text = String::from_str("Encountered ");
        let num = to_dec_string(n_err as u64);
        text.append(num.as_str());
        text.append(" errors");
        messages.info(text.as_str());
    }
    messages
}

/// Assemble the loaded source program: pass one, then — when no
/// error has been seen, neither here nor earlier in `messages` —
/// pass two, and a closing note on success.
pub fn assemble(storage: &mut Storage, messages: &mut Messages)
    requires
        old(storage).source_program@.len() <= usize::MAX - 0x10000,
    ensures
        ({
            let lines = old(storage).source_program.deep_view();
            let empty_err: Seq<Entry> = if lines.len() == 0 {
                seq![(Level::Error, "No source program loaded"@)]
            } else {
                Seq::empty()
            };
            let p1 = spec_pass_one(lines);
            let pre = old(messages)@ + empty_err + p1.log;
            &&& final(storage).address_symbol_table@ == p1.tab
            &&& final(storage).source_program == old(storage).source_program
            &&& if count_errors(pre) > 0 {
                &&& final(storage).assembled_program == old(storage).assembled_program
                &&& final(messages)@ =~= pre
            } else {
                let p2 = spec_pass_two(lines, p1.tab);
                &&& final(storage).assembled_program.deep_view() == p2.listing
                &&& count_errors(pre + p2.log) == 0 ==> final(messages)@ =~= pre + p2.log + seq![
                    (Level::Info, "Assembly completed successfully"@),
                ]
                &&& count_errors(pre + p2.log) != 0 ==> final(messages)@ =~= pre + p2.log
            }
        }),
{
    let ghost lines = old(storage).source_program.deep_view();
    let ghost empty_err: Seq<Entry> = if lines.len() == 0 {
        seq![(Level::Error, "No source program loaded"@)]
    } else {
        Seq::empty()
    };
    let ghost pre = old(messages)@ + empty_err + spec_pass_one(lines).log;
    if storage.source_program.len() == 0 {
        messages.error("No source program loaded");
    }
    proof {
        assert(messages@ =~= old(messages)@ + empty_err);
    }
    let p1_messages = pass_one(storage);
    messages.combine(p1_messages);
    proof {
        assert(messages@ =~= pre);
    }
    if messages.has_errors() {
        return ;
    }
    proof {
        lemma_p1_org_bounded(lines);
    }
    let p2_messages = pass_two(storage);
    messages.combine(p2_messages);
    proof {
        assert(messages@ =~= pre + spec_pass_two(lines, spec_pass_one(lines).tab).log);
    }
    if !messages.has_errors() {
        proof {
            crate::message::lemma_count_errors_bounded(messages@);
            assert(count_errors(pre + spec_pass_two(lines, spec_pass_one(lines).tab).log) == 0);
        }
        messages.info("Assembly completed successfully");
        proof {
            assert(messages@ =~= pre + spec_pass_two(lines, spec_pass_one(lines).tab).log + seq![
                (Level::Info, "Assembly completed successfully"@),
            ]);
        }
    } else {
        proof {
            assert(messages@ =~= pre + spec_pass_two(lines, spec_pass_one(lines).tab).log);
            assert(count_errors(messages@) != 0);
        }
    }
}

/// The label scan only appends pairs, and every pair it appends
/// carries a label that is no pseudo-instruction.
pub proof fn lemma_p1_scan_extends(
    lines: Seq<Seq<char>>,
    origin: u32,
    i: int,
    tab: Seq<(Seq<char>, u32)>,
)
    ensures
        ({
            let res = spec_p1_scan(lines, origin, i, tab).tab;
            &&& res.len() >= tab.len()
            &&& forall|j: int| 0 <= j < tab.len() ==> res[j] == tab[j]
            &&& forall|j: int| tab.len() <= j < res.len() ==> !is_pseudo(res[j].0)
        }),
    decreases lines.len() - i,
{
    if 0 <= i < lines.len() {
        let p = parse_line_spec(lines[i]);
        if p.instr.len() == 0 {
            lemma_p1_scan_extends(lines, origin, i + 1, tab);
        } else if p.instr == "END"@ {
        } else if line_has_label(lines[i]) {
            let label = label_of(lines[i]);
            if !is_pseudo(label) && !tab_contains(tab, label) && i != 0 && !(
            origin + i - 1 > 0xFFFFFFFF) {
                let pushed = tab.push((label, (origin + i - 1) as u32));
                lemma_p1_scan_extends(lines, origin, i + 1, pushed);
                assert(forall|j: int| 0 <= j < tab.len() ==> pushed[j] == tab[j]);
            }
        } else {
            lemma_p1_scan_extends(lines, origin, i + 1, tab);
        }
    }
}

/// After a clean pass one, the origin stored under `ORG` is the
/// sixteen-bit value pass one parsed, so it fits the loader's cursor.
pub proof fn lemma_p1_org_bounded(lines: Seq<Seq<char>>)
    ensures
        tab_lookup(spec_pass_one(lines).tab, "ORG"@) <= 0xFFFF,
{
    let p1 = spec_pass_one(lines);
    if lines.len() == 0 {
        assert(tab_lookup_from_empty(p1.tab, "ORG"@));
    } else {
        let k = first_code_ix(lines, 0);
        if k < lines.len() && parse_line_spec(lines[k]).instr == "ORG"@ {
            match parse_line_spec(lines[k]).operand {
                Option::None => {
                    assert(tab_lookup_from_empty(p1.tab, "ORG"@));
                },
                Option::Some(op) => {
                    if op.len() > 0 && all_hex_digits(op) && hex_value(op) <= 0xFFFF {
                        crate::text::lemma_hex_value_nonneg(op);
                        let origin = hex_value(op) as u32;
                        lemma_p1_org_lookup(lines, origin, seq![("ORG"@, origin)]);
                    } else {
                        assert(tab_lookup_from_empty(p1.tab, "ORG"@));
                    }
                },
            }
        } else {
            lemma_p1_org_lookup(lines, 0, seq![("ORG"@, 0u32)]);
        }
    }
}

/// In an empty table every lookup gives zero.
pub open spec fn tab_lookup_from_empty(tab: Seq<(Seq<char>, u32)>, key: Seq<char>) -> bool {
    tab.len() == 0 ==> tab_lookup(tab, key) == 0
}

/// The label scan keeps keys unique, appends only labels that are no
/// pseudo-instruction, and hands out strictly increasing addresses,
/// so distinct labels always get distinct addresses.
pub proof fn lemma_p1_scan_symbols(
    lines: Seq<Seq<char>>,
    origin: u32,
    i: int,
    tab: Seq<(Seq<char>, u32)>,
)
    requires
        tab_keys_unique(tab),
    ensures
        ({
            let res = spec_p1_scan(lines, origin, i, tab).tab;
            &&& tab_keys_unique(res)
            &&& res.len() >= tab.len()
            &&& forall|j: int| 0 <= j < tab.len() ==> res[j] == tab[j]
            &&& forall|j: int| tab.len() <= j < res.len() ==> !is_pseudo(res[j].0)
            &&& forall|j: int| tab.len() <= j < res.len() ==> origin + i - 1 <= res[j].1
            &&& forall|j1: int, j2: int|
                tab.len() <= j1 < j2 < res.len() ==> res[j1].1 < res[j2].1
        }),
    decreases lines.len() - i,
{
    if 0 <= i < lines.len() {
        let p = parse_line_spec(lines[i]);
        if p.instr.len() == 0 {
            lemma_p1_scan_symbols(lines, origin, i + 1, tab);
        } else if p.instr == "END"@ {
        } else if line_has_label(lines[i]) {
            let label = label_of(lines[i]);
            if !is_pseudo(label) && !tab_contains(tab, label) && i != 0 && !(
            origin + i - 1 > 0xFFFFFFFF) {
                let pushed = tab.push((label, (origin + i - 1) as u32));
                crate::symbols::SymbolTable::lemma_unique_after_insert(
                    tab,
                    label,
                    (origin + i - 1) as u32,
                );
                lemma_p1_scan_symbols(lines, origin, i + 1, pushed);
                assert(forall|j: int| 0 <= j < tab.len() ==> pushed[j] == tab[j]);
                assert(pushed[tab.len() as int].1 == origin + i - 1);
            }
        } else {
            lemma_p1_scan_symbols(lines, origin, i + 1, tab);
        }
    }
}

/// The symbol-table invariant: after pass one the keys are pairwise
/// distinct; apart from the leading `ORG` entry every key is a label
/// and never a pseudo-instruction; and distinct labels map to
/// distinct addresses.
pub proof fn lemma_symbol_table_invariant(lines: Seq<Seq<char>>)
    ensures
        ({
            let tab = spec_pass_one(lines).tab;
            &&& tab_keys_unique(tab)
            &&& tab.len() > 0 ==> tab[0].0 == "ORG"@
            &&& forall|j: int| 1 <= j < tab.len() ==> !is_pseudo(tab[j].0)
            &&& forall|j1: int, j2: int| 1 <= j1 < j2 < tab.len() ==> tab[j1].1 != tab[j2].1
        }),
{
    if lines.len() == 0 {
    } else {
        let k = first_code_ix(lines, 0);
        if k < lines.len() && parse_line_spec(lines[k]).instr == "ORG"@ {
            match parse_line_spec(lines[k]).operand {
                Option::None => {},
                Option::Some(op) => {
                    if op.len() > 0 && all_hex_digits(op) && hex_value(op) <= 0xFFFF {
                        let origin = hex_value(op) as u32;
                        let tab0 = seq![("ORG"@, origin)];
                        assert(tab_keys_unique(tab0));
                        lemma_p1_scan_symbols(lines, origin, 0, tab0);
                    }
                },
            }
        } else {
            let tab0 = seq![("ORG"@, 0u32)];
            assert(tab_keys_unique(tab0));
            lemma_p1_scan_symbols(lines, 0, 0, tab0);
        }
    }
}

/// Emission writes at strictly increasing positions, so the listing
/// never grows past one beyond the last written location: it ends
/// with an emitted word, or is empty. Every cell is an unused empty
/// string or a four-character word.
pub proof fn lemma_p2_scan_listing_tight(
    lines: Seq<Seq<char>>,
    tab: Seq<(Seq<char>, u32)>,
    i: int,
    cursor: int,
    listing: Seq<Seq<char>>,
)
    requires
        cursor >= 0,
        listing.len() == 0 || (cursor >= listing.len() && listing.last().len() > 0),
        forall|j: int| 0 <= j < listing.len() ==> listing[j].len() == 0 || listing[j].len() == 4,
    ensures
        ({
            let res = spec_p2_scan(lines, tab, i, cursor, listing).listing;
            &&& res.len() == 0 || res.last().len() > 0
            &&& res.len() >= listing.len()
            &&& forall|j: int| 0 <= j < res.len() ==> res[j].len() == 0 || res[j].len() == 4
        }),
    decreases lines.len() - i,
{
    if 0 <= i < lines.len() {
        let p = parse_line_spec(lines[i]);
        if p.instr.len() == 0 || p.instr == "ORG"@ {
            lemma_p2_scan_listing_tight(lines, tab, i + 1, cursor, listing);
        } else if p.instr == "END"@ {
        } else {
            let written = if p.instr == "DEC"@ || p.instr == "HEX"@ {
                match p.operand {
                    Option::None => Option::<Seq<char>>::None,
                    Option::Some(op) => {
                        let w = if p.instr == "DEC"@ {
                            dec_word_of(op)
                        } else {
                            hex_word_of(op)
                        };
                        match w {
                            Option::Some(word) => Option::Some(hex4(word)),
                            Option::None => Option::None,
                        }
                    },
                }
            } else if mri_code(p.instr) is Some {
                let label = match p.operand {
                    Option::Some(op) => op,
                    Option::None => Seq::<char>::empty(),
                };
                let addr = if tab_contains(tab, label) {
                    tab_lookup(tab, label)
                } else {
                    0u32
                };
                Option::Some(
                    hex4(
                        (mri_code(p.instr)->0 + addr % 0x1000 + if p.indirect {
                            0x8000int
                        } else {
                            0int
                        }) as u16,
                    ),
                )
            } else if rri_code(p.instr) is Some {
                Option::Some(hex4(rri_code(p.instr)->0))
            } else if io_code(p.instr) is Some {
                Option::Some(hex4(io_code(p.instr)->0))
            } else {
                Option::<Seq<char>>::None
            };
            match written {
                Option::Some(word_text) => {
                    let grown = listing_write(listing, cursor, word_text);
                    assert(word_text.len() == 4);
                    assert(grown.len() == cursor + 1);
                    assert(grown.last() == word_text);
                    lemma_p2_scan_listing_tight(lines, tab, i + 1, cursor + 1, grown);
                },
                Option::None => {
                    lemma_p2_scan_listing_tight(lines, tab, i + 1, cursor + 1, listing);
                },
            }
        }
    }
}

/// The assembled listing is exactly as long as one past the highest
/// location pass two wrote: empty, or ending with an emitted word.
/// Unwritten cells hold empty strings; written ones hold a
/// four-character word.
pub proof fn lemma_pass_two_listing_tight(lines: Seq<Seq<char>>, tab: Seq<(Seq<char>, u32)>)
    ensures
        ({
            let l = spec_pass_two(lines, tab).listing;
            &&& l.len() == 0 || l.last().len() > 0
            &&& forall|j: int| 0 <= j < l.len() ==> l[j].len() == 0 || l[j].len() == 4
        }),
{
    let origin = if tab_contains(tab, "ORG"@) {
        tab_lookup(tab, "ORG"@)
    } else {
        0u32
    };
    lemma_p2_scan_listing_tight(lines, tab, 0, origin as int, Seq::empty());
}

/// A scan seeded with `ORG` at the front keeps its value in front.
proof fn lemma_p1_org_lookup(lines: Seq<Seq<char>>, origin: u32, tab0: Seq<(Seq<char>, u32)>)
    requires
        tab0.len() >= 1,
        tab0[0].0 == "ORG"@,
        tab0[0].1 <= 0xFFFF,
    ensures
        tab_lookup(spec_p1_scan(lines, origin, 0, tab0).tab, "ORG"@) <= 0xFFFF,
{
    lemma_p1_scan_extends(lines, origin, 0, tab0);
    let res = spec_p1_scan(lines, origin, 0, tab0).tab;
    assert(res[0] == tab0[0]);
    assert(tab_lookup_from(res, "ORG"@, 0) == res[0].1);
}

} // verus!
