//! The encoding of one instruction line.
//!
//! A line is classified by its first character: `@` opens an A-type
//! instruction, `(` a label, anything else is a C-type instruction of the form
//! `dest=comp;jump`, whose word is `111 a cccccc ddd jjj`.

use crate::error::{ErrorKind, Failure};
use crate::text::{
    contains_char, decimal_value, is_blank, is_digit, is_numeral, lemma_blank_trims_to_nothing,
    lemma_decimal_value_push, lemma_trim_ignores_padding, lines_alike, numeral_value, spells,
    trim, unsigned_part,
};
use vstd::prelude::*;

verus! {

/// The largest address that an A-type instruction can load: fifteen bits.
pub const MAX_ADDRESS: u16 = 0x7FFF;

/// The three high bits that mark a C-type instruction.
pub const C_TYPE_MARK: u16 = 0xE000;

/// An instruction after encoding, as the contracts speak of it.
pub enum PartialInstruction {
    /// A finished word.
    Complete(u16),
    /// An `@` instruction whose operand is a name that is resolved later.
    SymbolicAddress(Seq<char>),
}

/// An instruction after encoding: a finished word, or the name that an `@`
/// instruction refers to.
#[derive(Debug, PartialEq, Eq)]
pub enum PartiallyAssembledInstruction {
    Complete(u16),
    SymbolicAddress(String),
}

impl View for PartiallyAssembledInstruction {
    type V = PartialInstruction;

    open spec fn view(&self) -> PartialInstruction {
        match self {
            PartiallyAssembledInstruction::Complete(word) => PartialInstruction::Complete(*word),
            PartiallyAssembledInstruction::SymbolicAddress(name) => {
                PartialInstruction::SymbolicAddress(name@)
            },
        }
    }
}

/// The symbol table and the instructions that the lines read so far gave.
pub struct Encoding {
    pub symbols: Map<Seq<char>, u16>,
    pub output: Seq<PartialInstruction>,
}

/// The destination bits: `M` sets bit 0, `D` bit 1 and `A` bit 2, each if it
/// occurs anywhere in the destination.
pub open spec fn dest_bits(dest: Seq<char>) -> u16 {
    (if dest.contains('M') {
        1u16
    } else {
        0u16
    }) | (if dest.contains('D') {
        2u16
    } else {
        0u16
    }) | (if dest.contains('A') {
        4u16
    } else {
        0u16
    })
}

/// The jump bits of a mnemonic, for the eight mnemonics there are.
pub open spec fn jump_bits(mnemonic: Seq<char>) -> Option<u16> {
    if mnemonic == "null"@ {
        Some(0b000u16)
    } else if mnemonic == "JGT"@ {
        Some(0b001u16)
    } else if mnemonic == "JEQ"@ {
        Some(0b010u16)
    } else if mnemonic == "JGE"@ {
        Some(0b011u16)
    } else if mnemonic == "JLT"@ {
        Some(0b100u16)
    } else if mnemonic == "JNE"@ {
        Some(0b101u16)
    } else if mnemonic == "JLE"@ {
        Some(0b110u16)
    } else if mnemonic == "JMP"@ {
        Some(0b111u16)
    } else {
        None
    }
}

/// The seven computation bits `a cccccc` of an expression, for the 28
/// expressions there are. Those that read `M` have the `a` bit set.
pub open spec fn comp_bits(expression: Seq<char>) -> Option<u16> {
    if expression == "0"@ {
        Some(0b0_101010u16)
    } else if expression == "1"@ {
        Some(0b0_111111u16)
    } else if expression == "-1"@ {
        Some(0b0_111010u16)
    } else if expression == "D"@ {
        Some(0b0_001100u16)
    } else if expression == "A"@ {
        Some(0b0_110000u16)
    } else if expression == "!D"@ {
        Some(0b0_001101u16)
    } else if expression == "!A"@ {
        Some(0b0_110001u16)
    } else if expression == "-D"@ {
        Some(0b0_001111u16)
    } else if expression == "-A"@ {
        Some(0b0_110011u16)
    } else if expression == "D+1"@ {
        Some(0b0_011111u16)
    } else if expression == "A+1"@ {
        Some(0b0_110111u16)
    } else if expression == "D-1"@ {
        Some(0b0_001110u16)
    } else if expression == "A-1"@ {
        Some(0b0_110010u16)
    } else if expression == "D+A"@ {
        Some(0b0_000010u16)
    } else if expression == "D-A"@ {
        Some(0b0_010011u16)
    } else if expression == "A-D"@ {
        Some(0b0_000111u16)
    } else if expression == "D&A"@ {
        Some(0b0_000000u16)
    } else if expression == "D|A"@ {
        Some(0b0_010101u16)
    } else if expression == "M"@ {
        Some(0b1_110000u16)
    } else if expression == "!M"@ {
        Some(0b1_110001u16)
    } else if expression == "-M"@ {
        Some(0b1_110011u16)
    } else if expression == "M+1"@ {
        Some(0b1_110111u16)
    } else if expression == "M-1"@ {
        Some(0b1_110010u16)
    } else if expression == "D+M"@ {
        Some(0b1_000010u16)
    } else if expression == "D-M"@ {
        Some(0b1_010011u16)
    } else if expression == "M-D"@ {
        Some(0b1_000111u16)
    } else if expression == "D&M"@ {
        Some(0b1_000000u16)
    } else if expression == "D|M"@ {
        Some(0b1_010101u16)
    } else {
        None
    }
}

/// The word of a C-type instruction with the given fields.
pub open spec fn c_type_word(comp: u16, dest: u16, jump: u16) -> u16 {
    C_TYPE_MARK | (comp << 6u16) | (dest << 3u16) | jump
}

/// The destination of a C-type line: the text before the first `=`, or
/// nothing where the line has no `=`.
pub open spec fn dest_part(line: Seq<char>) -> Seq<char> {
    match line.index_of_first('=') {
        Some(i) => line.take(i),
        None => Seq::empty(),
    }
}

/// What follows the destination: the text after the first `=`, or the whole
/// line where it has no `=`.
pub open spec fn after_dest(line: Seq<char>) -> Seq<char> {
    match line.index_of_first('=') {
        Some(i) => line.skip(i + 1),
        None => line,
    }
}

/// The jump mnemonic of a C-type line: what follows the first `;` after the
/// destination, if there is a `;`.
pub open spec fn jump_part(line: Seq<char>) -> Option<Seq<char>> {
    let rest = after_dest(line);
    match rest.index_of_first(';') {
        Some(i) => Some(rest.skip(i + 1)),
        None => None,
    }
}

/// The computation of a C-type line: what stands between the destination
/// and the jump.
pub open spec fn comp_part(line: Seq<char>) -> Seq<char> {
    let rest = after_dest(line);
    match rest.index_of_first(';') {
        Some(i) => rest.take(i),
        None => rest,
    }
}

/// The word of the C-type instruction that `line` writes. The jump is
/// looked at before the computation, so a line with both wrong fails on its
/// jump.
pub open spec fn encode_c_type(line: Seq<char>) -> Result<u16, Failure> {
    let jump = match jump_part(line) {
        Some(mnemonic) => jump_bits(mnemonic),
        None => Some(0u16),
    };
    if jump is None {
        Err(Failure { kind: ErrorKind::InvalidJump, token: jump_part(line)->0 })
    } else if comp_bits(comp_part(line)) is None {
        Err(Failure { kind: ErrorKind::InvalidComputation, token: comp_part(line) })
    } else {
        Ok(c_type_word(comp_bits(comp_part(line))->0, dest_bits(dest_part(line)), jump->0))
    }
}

/// The instruction that `@` followed by `operand` writes: a numeral gives
/// its value, and fails above `MAX_ADDRESS`; any other text is a name.
pub open spec fn encode_a_type(operand: Seq<char>) -> Result<PartialInstruction, Failure> {
    if !is_numeral(operand) {
        Ok(PartialInstruction::SymbolicAddress(operand))
    } else if numeral_value(operand) <= MAX_ADDRESS {
        Ok(PartialInstruction::Complete(numeral_value(operand) as u16))
    } else {
        Err(Failure { kind: ErrorKind::AddressOutOfRange, token: operand })
    }
}

/// Whether `line` has the form of a label: `(`, a name, `)`.
pub open spec fn is_label(line: Seq<char>) -> bool {
    line.len() >= 2 && line.first() == '(' && line.last() == ')'
}

/// The name that a label binds: what stands between its parentheses.
pub open spec fn label_name(line: Seq<char>) -> Seq<char> {
    line.subrange(1, line.len() - 1)
}

/// The address that a label gets when `count` instructions stand before it:
/// `count`, kept to sixteen bits.
pub open spec fn label_address(count: nat) -> u16 {
    (count % 0x10000) as u16
}

/// What one line does to the symbol table and the instructions. A blank
/// line does nothing, a label binds its name to the number of instructions
/// so far, and any other line adds one instruction.
///
/// No binding is ever changed: a label whose name is bound to another
/// address fails, be it a predefined symbol or an earlier label. A label that
/// gives a name the address that it has is accepted.
pub open spec fn encode_line(before: Encoding, raw: Seq<char>) -> Result<Encoding, Failure> {
    let line = trim(raw);
    if line.len() == 0 {
        Ok(before)
    } else if line.first() == '@' {
        match encode_a_type(line.drop_first()) {
            Ok(instruction) => Ok(
                Encoding { symbols: before.symbols, output: before.output.push(instruction) },
            ),
            Err(failure) => Err(failure),
        }
    } else if line.first() == '(' {
        let name = label_name(line);
        let address = label_address(before.output.len());
        if !is_label(line) {
            Err(Failure { kind: ErrorKind::MalformedLabel, token: line })
        } else if before.symbols.contains_key(name) && before.symbols[name] != address {
            Err(Failure { kind: ErrorKind::SymbolRedefined, token: name })
        } else {
            Ok(Encoding { symbols: before.symbols.insert(name, address), output: before.output })
        }
    } else {
        match encode_c_type(line) {
            Ok(word) => Ok(
                Encoding {
                    symbols: before.symbols,
                    output: before.output.push(PartialInstruction::Complete(word)),
                },
            ),
            Err(failure) => Err(failure),
        }
    }
}

/// What a sequence of lines does, read in order. The first line that fails
/// ends it.
pub open spec fn encode_lines(start: Encoding, lines: Seq<Seq<char>>) -> Result<Encoding, Failure>
    decreases lines.len(),
{
    if lines.len() == 0 {
        Ok(start)
    } else {
        match encode_lines(start, lines.drop_last()) {
            Ok(before) => encode_line(before, lines.last()),
            Err(failure) => Err(failure),
        }
    }
}

/// Encoding two runs of lines one after the other is encoding their
/// concatenation. Once a line has failed, the lines after it change nothing.
pub proof fn lemma_encode_lines_concat(
    start: Encoding,
    first: Seq<Seq<char>>,
    second: Seq<Seq<char>>,
)
    ensures
        encode_lines(start, first + second) == match encode_lines(start, first) {
            Ok(middle) => encode_lines(middle, second),
            Err(failure) => Err(failure),
        },
    decreases second.len(),
{
    if second.len() > 0 {
        assert((first + second).drop_last() =~= first + second.drop_last());
        lemma_encode_lines_concat(start, first, second.drop_last());
    }
}

/// Whether the line `raw` is a label that binds `name`.
pub open spec fn defines_label(raw: Seq<char>, name: Seq<char>) -> bool {
    is_label(trim(raw)) && label_name(trim(raw)) == name
}

/// Only a label binds a symbol, and only its own name: a name that no line
/// defines is bound after the lines exactly if it was bound before them.
pub proof fn lemma_only_labels_bind(start: Encoding, lines: Seq<Seq<char>>, name: Seq<char>)
    requires
        encode_lines(start, lines) is Ok,
        forall|i: int| 0 <= i < lines.len() ==> !defines_label(#[trigger] lines[i], name),
    ensures
        encode_lines(start, lines)->Ok_0.symbols.contains_key(name) == start.symbols.contains_key(
            name,
        ),
    decreases lines.len(),
{
    if lines.len() > 0 {
        lemma_only_labels_bind(start, lines.drop_last(), name);
    }
}

/// Encoding never changes a binding and never drops an instruction: a name
/// that was bound has the same address after the lines, and the instructions
/// so far stay where they were. A line adds one instruction at most.
pub proof fn lemma_encoding_grows(start: Encoding, lines: Seq<Seq<char>>)
    requires
        encode_lines(start, lines) is Ok,
    ensures
        ({
            let end = encode_lines(start, lines)->Ok_0;
            &&& start.output.is_prefix_of(end.output)
            &&& end.output.len() <= start.output.len() + lines.len()
            &&& forall|name: Seq<char>| #[trigger]
                start.symbols.contains_key(name) ==> end.symbols.contains_key(name)
                    && end.symbols[name] == start.symbols[name]
        }),
    decreases lines.len(),
{
    if lines.len() > 0 {
        lemma_encoding_grows(start, lines.drop_last());
    }
}

/// A label that is accepted binds its name to the number of instructions
/// before it, and adds no instruction.
pub proof fn lemma_label_binds_next_instruction(before: Encoding, raw: Seq<char>, name: Seq<char>)
    requires
        defines_label(raw, name),
        encode_line(before, raw) is Ok,
    ensures
        encode_line(before, raw)->Ok_0.output == before.output,
        encode_line(before, raw)->Ok_0.symbols == before.symbols.insert(
            name,
            label_address(before.output.len()),
        ),
{
}

/// A label fails exactly where its name is bound to another address than
/// the number of instructions before it.
pub proof fn lemma_label_is_accepted(before: Encoding, raw: Seq<char>, name: Seq<char>)
    requires
        defines_label(raw, name),
    ensures
        encode_line(before, raw) is Err <==> before.symbols.contains_key(name)
            && before.symbols[name] != label_address(before.output.len()),
        encode_line(before, raw) is Err ==> encode_line(before, raw)->Err_0 == (Failure {
            kind: ErrorKind::SymbolRedefined,
            token: name,
        }),
{
}

/// Blank lines do nothing.
pub proof fn lemma_blank_lines_do_nothing(start: Encoding, lines: Seq<Seq<char>>)
    requires
        forall|i: int| 0 <= i < lines.len() ==> is_blank(#[trigger] lines[i]),
    ensures
        encode_lines(start, lines) == Ok::<Encoding, Failure>(start),
    decreases lines.len(),
{
    if lines.len() > 0 {
        lemma_blank_lines_do_nothing(start, lines.drop_last());
        lemma_blank_trims_to_nothing(lines.last());
    }
}

/// White space before and after a line does not change what the line
/// encodes to.
pub proof fn lemma_encode_line_ignores_padding(
    before: Encoding,
    left: Seq<char>,
    line: Seq<char>,
    right: Seq<char>,
)
    requires
        is_blank(left),
        is_blank(right),
    ensures
        encode_line(before, left + line + right) == encode_line(before, line),
{
    lemma_trim_ignores_padding(left, line, right);
}

/// Lines are encoded by their trimmed text: two sequences of lines that
/// differ in the white space around their lines alone encode alike.
pub proof fn lemma_alike_lines_encode_alike(
    start: Encoding,
    first: Seq<Seq<char>>,
    second: Seq<Seq<char>>,
)
    requires
        lines_alike(first, second),
    ensures
        encode_lines(start, first) == encode_lines(start, second),
    decreases first.len(),
{
    if first.len() > 0 {
        lemma_alike_lines_encode_alike(start, first.drop_last(), second.drop_last());
    }
}

/// The fields of a C-type word can be read back from it: the three high
/// bits are set, and below them stand the seven computation bits, the three
/// destination bits and the three jump bits.
pub proof fn lemma_c_type_word_fields(comp: u16, dest: u16, jump: u16)
    by (bit_vector)
    requires
        comp < 128,
        dest < 8,
        jump < 8,
    ensures
        c_type_word(comp, dest, jump) >> 13u16 == 0b111u16,
        (c_type_word(comp, dest, jump) >> 6u16) & 0x7Fu16 == comp,
        (c_type_word(comp, dest, jump) >> 3u16) & 0b111u16 == dest,
        c_type_word(comp, dest, jump) & 0b111u16 == jump,
{
}

/// Every computation code has seven bits, and every destination and jump
/// code three.
pub proof fn lemma_field_ranges(text: Seq<char>)
    ensures
        comp_bits(text) is Some ==> comp_bits(text)->0 < 128,
        jump_bits(text) is Some ==> jump_bits(text)->0 < 8,
        dest_bits(text) < 8,
{
    let m = if text.contains('M') {
        1u16
    } else {
        0u16
    };
    let d = if text.contains('D') {
        2u16
    } else {
        0u16
    };
    let a = if text.contains('A') {
        4u16
    } else {
        0u16
    };
    assert((m | d | a) < 8) by (bit_vector)
        requires
            m <= 1,
            d <= 2,
            a <= 4,
    ;
}

/// The word of every C-type line that encodes has the three high bits set
/// and holds the codes of the line's three parts, each in its field.
pub proof fn lemma_c_type_layout(line: Seq<char>)
    requires
        encode_c_type(line) is Ok,
    ensures
        ({
            let word = encode_c_type(line)->Ok_0;
            &&& word >> 13u16 == 0b111u16
            &&& Some((word >> 6u16) & 0x7Fu16) == comp_bits(comp_part(line))
            &&& (word >> 3u16) & 0b111u16 == dest_bits(dest_part(line))
            &&& match jump_part(line) {
                Some(mnemonic) => Some(word & 0b111u16) == jump_bits(mnemonic),
                None => word & 0b111u16 == 0,
            }
        }),
{
    lemma_field_ranges(dest_part(line));
    let jump = match jump_part(line) {
        Some(mnemonic) => {
            jump_bits(mnemonic)->0
        },
        None => 0u16,
    };
    lemma_c_type_word_fields(comp_bits(comp_part(line))->0, dest_bits(dest_part(line)), jump);
}

/// The failure that lies in the text of a line, if there is one: an
/// address above the range, an unknown jump or computation, a label that is
/// not closed. It depends on the line alone, not on what was encoded before.
pub open spec fn line_failure(raw: Seq<char>) -> Option<Failure> {
    match encode_line(Encoding { symbols: Map::empty(), output: Seq::empty() }, raw) {
        Ok(_) => None,
        Err(failure) => Some(failure),
    }
}

/// A line whose text is at fault fails after any lines as it fails alone.
/// A line whose text is sound fails in one case only: it is a label whose
/// name is bound to another address.
pub proof fn lemma_line_failure(before: Encoding, raw: Seq<char>)
    ensures
        match line_failure(raw) {
            Some(failure) => encode_line(before, raw) == Err::<Encoding, Failure>(failure),
            None => encode_line(before, raw) is Err ==> encode_line(before, raw)->Err_0.kind
                == ErrorKind::SymbolRedefined,
        },
{
}

/// Lines whose text is sound are encoded to the end, unless a label among
/// them redefines a symbol.
pub proof fn lemma_sound_lines_encode(start: Encoding, lines: Seq<Seq<char>>)
    requires
        forall|i: int| 0 <= i < lines.len() ==> line_failure(#[trigger] lines[i]) is None,
    ensures
        encode_lines(start, lines) is Err ==> encode_lines(start, lines)->Err_0.kind
            == ErrorKind::SymbolRedefined,
    decreases lines.len(),
{
    if lines.len() > 0 {
        lemma_sound_lines_encode(start, lines.drop_last());
        if encode_lines(start, lines.drop_last()) is Ok {
            lemma_line_failure(encode_lines(start, lines.drop_last())->Ok_0, lines.last());
        }
    }
}

/// A line whose text is at fault stops the encoding, whether or not a line
/// before it has failed already.
pub proof fn lemma_failing_line_stops(start: Encoding, lines: Seq<Seq<char>>, failing: int)
    requires
        0 <= failing < lines.len(),
        line_failure(lines[failing]) is Some,
    ensures
        encode_lines(start, lines) is Err,
    decreases lines.len(),
{
    if failing < lines.len() - 1 {
        lemma_failing_line_stops(start, lines.drop_last(), failing);
    }
}

/// The first line that fails decides: its failure is the failure of the
/// whole, whatever stands after it.
pub proof fn lemma_first_failure_decides(start: Encoding, lines: Seq<Seq<char>>, first: int)
    requires
        0 <= first < lines.len(),
        encode_lines(start, lines.take(first)) is Ok,
        encode_line(encode_lines(start, lines.take(first))->Ok_0, lines[first]) is Err,
    ensures
        encode_lines(start, lines) == Err::<Encoding, Failure>(
            encode_line(encode_lines(start, lines.take(first))->Ok_0, lines[first])->Err_0,
        ),
{
    let through = lines.take(first + 1);
    let after = lines.skip(first + 1);
    assert(through.drop_last() =~= lines.take(first));
    assert(lines =~= through + after);
    lemma_encode_lines_concat(start, through, after);
}

/// The destination bits of `dest`.
pub fn destination_code(dest: &[char]) -> (bits: u16)
    ensures
        bits == dest_bits(dest@),
{
    let m: u16 = if contains_char(dest, 'M') {
        1
    } else {
        0
    };
    let d: u16 = if contains_char(dest, 'D') {
        2
    } else {
        0
    };
    let a: u16 = if contains_char(dest, 'A') {
        4
    } else {
        0
    };
    m | d | a
}

/// The jump bits of `mnemonic`, or `None` where it is no jump mnemonic.
pub fn jump_code(mnemonic: &[char]) -> (bits: Option<u16>)
    ensures
        bits == jump_bits(mnemonic@),
{
    if spells(mnemonic, "null") {
        Some(0b000)
    } else if spells(mnemonic, "JGT") {
        Some(0b001)
    } else if spells(mnemonic, "JEQ") {
        Some(0b010)
    } else if spells(mnemonic, "JGE") {
        Some(0b011)
    } else if spells(mnemonic, "JLT") {
        Some(0b100)
    } else if spells(mnemonic, "JNE") {
        Some(0b101)
    } else if spells(mnemonic, "JLE") {
        Some(0b110)
    } else if spells(mnemonic, "JMP") {
        Some(0b111)
    } else {
        None
    }
}

/// The computation bits of `expression`, or `None` where it is none of the
/// known forms.
pub fn computation_code(expression: &[char]) -> (bits: Option<u16>)
    ensures
        bits == comp_bits(expression@),
{
    if spells(expression, "0") {
        Some(0b0_101010)
    } else if spells(expression, "1") {
        Some(0b0_111111)
    } else if spells(expression, "-1") {
        Some(0b0_111010)
    } else if spells(expression, "D") {
        Some(0b0_001100)
    } else if spells(expression, "A") {
        Some(0b0_110000)
    } else if spells(expression, "!D") {
        Some(0b0_001101)
    } else if spells(expression, "!A") {
        Some(0b0_110001)
    } else if spells(expression, "-D") {
        Some(0b0_001111)
    } else if spells(expression, "-A") {
        Some(0b0_110011)
    } else if spells(expression, "D+1") {
        Some(0b0_011111)
    } else if spells(expression, "A+1") {
        Some(0b0_110111)
    } else if spells(expression, "D-1") {
        Some(0b0_001110)
    } else if spells(expression, "A-1") {
        Some(0b0_110010)
    } else if spells(expression, "D+A") {
        Some(0b0_000010)
    } else if spells(expression, "D-A") {
        Some(0b0_010011)
    } else if spells(expression, "A-D") {
        Some(0b0_000111)
    } else if spells(expression, "D&A") {
        Some(0b0_000000)
    } else if spells(expression, "D|A") {
        Some(0b0_010101)
    } else if spells(expression, "M") {
        Some(0b1_110000)
    } else if spells(expression, "!M") {
        Some(0b1_110001)
    } else if spells(expression, "-M") {
        Some(0b1_110011)
    } else if spells(expression, "M+1") {
        Some(0b1_110111)
    } else if spells(expression, "M-1") {
        Some(0b1_110010)
    } else if spells(expression, "D+M") {
        Some(0b1_000010)
    } else if spells(expression, "D-M") {
        Some(0b1_010011)
    } else if spells(expression, "M-D") {
        Some(0b1_000111)
    } else if spells(expression, "D&M") {
        Some(0b1_000000)
    } else if spells(expression, "D|M") {
        Some(0b1_010101)
    } else {
        None
    }
}

/// What the operand of an `@` instruction is.
#[derive(Clone, Copy, Debug, PartialEq, Eq, Structural)]
pub enum Operand {
    /// A numeral within the address range, with its value.
    Address(u16),
    /// A numeral above the address range.
    TooLarge,
    /// Not a numeral: a name.
    Symbol,
}

/// Reads the operand of an `@` instruction.
pub fn read_operand(text: &[char]) -> (operand: Operand)
    ensures
        match operand {
            Operand::Address(value) => is_numeral(text@) && numeral_value(text@) == value && value
                <= MAX_ADDRESS,
            Operand::TooLarge => is_numeral(text@) && numeral_value(text@) > MAX_ADDRESS,
            Operand::Symbol => !is_numeral(text@),
        },
{
    let start: usize = if text.len() > 0 && text[0] == '+' {
        1
    } else {
        0
    };
    if start == text.len() {
        return Operand::Symbol;
    }
    let mut value: u32 = 0;
    let mut too_large = false;
    let mut i: usize = start;
    while i < text.len()
        invariant
            start <= i <= text.len(),
            unsigned_part(text@) == text@.subrange(start as int, text.len() as int),
            forall|j: int| start <= j < i ==> is_digit(#[trigger] text@[j]),
            !too_large ==> value == decimal_value(text@.subrange(start as int, i as int)) && value
                <= MAX_ADDRESS,
            too_large ==> decimal_value(text@.subrange(start as int, i as int)) > MAX_ADDRESS,
        decreases text.len() - i,
    {
        let c = text[i];
        if c < '0' || c > '9' {
            assert(unsigned_part(text@)[i - start] == c);
            return Operand::Symbol;
        }
        let digit: u32 = c as u32 - '0' as u32;
        proof {
            assert(text@.subrange(start as int, i + 1) =~= text@.subrange(
                start as int,
                i as int,
            ).push(c));
            lemma_decimal_value_push(text@.subrange(start as int, i as int), c);
        }
        if !too_large {
            value = value * 10 + digit;
            if value > MAX_ADDRESS as u32 {
                too_large = true;
            }
        }
        i += 1;
    }
    if too_large {
        Operand::TooLarge
    } else {
        Operand::Address(value as u16)
    }
}

} // verus!
