//! The assembler: tokenizer, encoder and resolver in one.
//!
//! The source is read once, character by character. Each finished line is
//! encoded at once, which fills the instruction list and binds the labels.
//! Only when the whole source is read are the symbolic addresses resolved, so
//! that a label may be used before the line that defines it.

use crate::encoder::{
    computation_code, destination_code, encode_a_type, encode_c_type, encode_line, encode_lines,
    jump_code, label_name, lemma_encode_lines_concat, read_operand, Encoding, Operand,
    PartialInstruction, PartiallyAssembledInstruction, C_TYPE_MARK,
};
use crate::error::{AssembleError, ErrorKind, Failure};
use crate::resolver::{
    lemma_resolve_concat, resolve, resolve_instruction, resolved_words, Resolution,
    FIRST_VARIABLE_ADDRESS,
};
use crate::symbols::{predefined_symbol_table, predefined_symbols};
use crate::text::{collect_string, find_char, trim, trim_bounds};
use crate::tokenizer::{
    ends_line, lemma_scan_keeps_lines, lemma_scan_take_next, logical_lines_from, next_buffer,
    next_state, scan, AssemblerState, Scan,
};
use vstd::hash_map::StringHashMap;
use vstd::prelude::*;

verus! {

/// An assembler at work.
pub struct Assembler {
    state: AssemblerState,
    instruction_buffer: Vec<char>,
    symbol_table: StringHashMap<u16>,
    extra_data_address: u16,
    output: Vec<PartiallyAssembledInstruction>,
}

/// What an assembler holds, as the contracts speak of it.
pub struct AssemblerView {
    /// The state of the tokenizer.
    pub state: AssemblerState,
    /// The text of the line that is being read.
    pub instruction_buffer: Seq<char>,
    /// The address of every symbol that is bound.
    pub symbol_table: Map<Seq<char>, u16>,
    /// The address that the next new variable gets.
    pub extra_data_address: u16,
    /// The instructions encoded so far, in the order of the source.
    pub output: Seq<PartialInstruction>,
}

impl AssemblerView {
    /// The part that the encoder works on.
    pub open spec fn encoding(self) -> Encoding {
        Encoding { symbols: self.symbol_table, output: self.output }
    }

    /// The resolver before its first instruction.
    pub open spec fn resolution(self) -> Resolution {
        Resolution {
            symbols: self.symbol_table,
            next_variable: self.extra_data_address,
            words: Seq::empty(),
        }
    }

    /// The tokenizer with no line finished yet.
    pub open spec fn scanning(self) -> Scan {
        Scan { state: self.state, buffer: self.instruction_buffer, lines: Seq::empty() }
    }
}

/// An assembler that has read nothing.
pub open spec fn initial_assembler() -> AssemblerView {
    AssemblerView {
        state: AssemblerState::LookingForInstruction,
        instruction_buffer: Seq::empty(),
        symbol_table: predefined_symbols(),
        extra_data_address: FIRST_VARIABLE_ADDRESS,
        output: Seq::empty(),
    }
}

/// What the first pass of an assembler in the state `start` makes of
/// `source`: its lines, encoded in order.
pub open spec fn encoding_from(start: AssemblerView, source: Seq<char>) -> Result<
    Encoding,
    Failure,
> {
    encode_lines(
        start.encoding(),
        logical_lines_from(start.state, start.instruction_buffer, source),
    )
}

/// The words that an assembler in the state `start` makes of `source`: the
/// lines of the source are encoded in order, and then the instructions are
/// resolved against the symbol table as the last line left it.
pub open spec fn assembly_from(start: AssemblerView, source: Seq<char>) -> Result<
    Seq<u16>,
    Failure,
> {
    match encoding_from(start, source) {
        Ok(encoded) => resolved_words(encoded.symbols, start.extra_data_address, encoded.output),
        Err(failure) => Err(failure),
    }
}

/// What the first pass makes of a whole source text.
pub open spec fn encoding_of(source: Seq<char>) -> Result<Encoding, Failure> {
    encoding_from(initial_assembler(), source)
}

/// The words that `source` assembles to, or the failure that stops it.
pub open spec fn assembly(source: Seq<char>) -> Result<Seq<u16>, Failure> {
    assembly_from(initial_assembler(), source)
}

/// What an assembler returned, as the contracts speak of it: the words,
/// or the failure.
pub open spec fn outcome(result: Result<Vec<u16>, AssembleError>) -> Result<Seq<u16>, Failure> {
    match result {
        Ok(words) => Ok(words@),
        Err(error) => Err(error@),
    }
}

impl View for Assembler {
    type V = AssemblerView;

    closed spec fn view(&self) -> AssemblerView {
        AssemblerView {
            state: self.state,
            instruction_buffer: self.instruction_buffer@,
            symbol_table: self.symbol_table@,
            extra_data_address: self.extra_data_address,
            output: self.output@.map_values(|i: PartiallyAssembledInstruction| i@),
        }
    }
}

impl Assembler {
    /// An assembler that has read nothing: it knows the predefined symbols,
    /// and its first variable will get address 16.
    pub fn new() -> (assembler: Assembler)
        ensures
            assembler@ == initial_assembler(),
    {
        let assembler = Assembler {
            state: AssemblerState::LookingForInstruction,
            instruction_buffer: Vec::new(),
            symbol_table: predefined_symbol_table(),
            extra_data_address: FIRST_VARIABLE_ADDRESS,
            output: Vec::new(),
        };
        assert(assembler.output@.map_values(|i: PartiallyAssembledInstruction| i@)
            =~= Seq::empty());
        assembler
    }

    /// The state of the tokenizer.
    pub fn state(&self) -> (state: AssemblerState)
        ensures
            state == self@.state,
    {
        self.state
    }

    /// The address that `name` is bound to, if it is bound.
    pub fn address_of(&self, name: &str) -> (address: Option<u16>)
        ensures
            address == if self@.symbol_table.contains_key(name@) {
                Some(self@.symbol_table[name@])
            } else {
                None
            },
    {
        match self.symbol_table.get(name) {
            Some(address) => Some(*address),
            None => None,
        }
    }

    /// The instructions encoded so far.
    pub fn instructions(&self) -> (instructions: &Vec<PartiallyAssembledInstruction>)
        ensures
            instructions@.map_values(|i: PartiallyAssembledInstruction| i@) == self@.output,
    {
        &self.output
    }

    /// Appends one instruction to the output.
    fn emit(&mut self, instruction: PartiallyAssembledInstruction)
        ensures
            final(self)@ == (AssemblerView {
                output: old(self)@.output.push(instruction@),
                ..old(self)@
            }),
    {
        self.output.push(instruction);
        assert(self.output@.map_values(|i: PartiallyAssembledInstruction| i@) =~= old(
            self,
        ).output@.map_values(|i: PartiallyAssembledInstruction| i@).push(instruction@));
    }

    /// Encodes the line in the buffer as an A-type instruction and appends
    /// it to the output. The buffer must hold such a line: after trimming,
    /// it begins with `@`. A numeral above the address range fails, and the
    /// assembler is then left as it was.
    pub fn assemble_a_type_instruction(&mut self) -> (result: Result<(), AssembleError>)
        requires
            trim(old(self)@.instruction_buffer).len() > 0,
            trim(old(self)@.instruction_buffer).first() == '@',
        ensures
            match encode_a_type(trim(old(self)@.instruction_buffer).drop_first()) {
                Ok(instruction) => result is Ok && final(self)@ == (AssemblerView {
                    output: old(self)@.output.push(instruction),
                    ..old(self)@
                }),
                Err(failure) => result is Err && result->Err_0@ == failure && final(self)@ == old(
                    self,
                )@,
            },
    {
        let (start, end) = trim_bounds(self.instruction_buffer.as_slice());
        let symbol_or_value = &self.instruction_buffer[start + 1..end];
        assert(symbol_or_value@ =~= trim(self.instruction_buffer@).drop_first());
        match read_operand(symbol_or_value) {
            Operand::Address(value) => {
                self.emit(PartiallyAssembledInstruction::Complete(value));
                Ok(())
            },
            Operand::TooLarge => Err(
                AssembleError::new(ErrorKind::AddressOutOfRange, collect_string(symbol_or_value)),
            ),
            Operand::Symbol => {
                let name = collect_string(symbol_or_value);
                self.emit(PartiallyAssembledInstruction::SymbolicAddress(name));
                Ok(())
            },
        }
    }

    /// Encodes the line in the buffer as a C-type instruction and appends
    /// its word to the output. An unknown jump or computation fails, and the
    /// assembler is then left as it was.
    pub fn assemble_c_type_instruction(&mut self) -> (result: Result<(), AssembleError>)
        ensures
            match encode_c_type(trim(old(self)@.instruction_buffer)) {
                Ok(word) => result is Ok && final(self)@ == (AssemblerView {
                    output: old(self)@.output.push(PartialInstruction::Complete(word)),
                    ..old(self)@
                }),
                Err(failure) => result is Err && result->Err_0@ == failure && final(self)@ == old(
                    self,
                )@,
            },
    {
        let (start, end) = trim_bounds(self.instruction_buffer.as_slice());
        let line = &self.instruction_buffer[start..end];
        let mut instruction = line;
        let mut dest: u16 = 0;
        match find_char(instruction, '=') {
            Some(index) => {
                dest = destination_code(&instruction[0..index]);
                instruction = &instruction[index + 1..instruction.len()];
            },
            None => {
                assert(0u16 | 0u16 | 0u16 == 0u16) by (bit_vector);
            },
        }
        let mut jmp: u16 = 0;
        match find_char(instruction, ';') {
            Some(index) => {
                let jmp_name = &instruction[index + 1..instruction.len()];
                match jump_code(jmp_name) {
                    Some(bits) => {
                        jmp = bits;
                    },
                    None => {
                        return Err(
                            AssembleError::new(ErrorKind::InvalidJump, collect_string(jmp_name)),
                        );
                    },
                }
                instruction = &instruction[0..index];
            },
            None => {},
        }
        let comp: u16 = match computation_code(instruction) {
            Some(bits) => bits,
            None => {
                return Err(
                    AssembleError::new(
                        ErrorKind::InvalidComputation,
                        collect_string(instruction),
                    ),
                );
            },
        };
        let full: u16 = C_TYPE_MARK | comp << 6 | dest << 3 | jmp;
        self.emit(PartiallyAssembledInstruction::Complete(full));
        Ok(())
    }

    /// Encodes the line in the buffer and empties the buffer. A blank line
    /// does nothing more; a label binds its name to the number of
    /// instructions so far; any other line appends one instruction. A label
    /// never changes a binding: where its name is bound to another address,
    /// it fails. Where the line fails, the assembler is left as it was,
    /// buffer included.
    pub fn assemble_instruction(&mut self) -> (result: Result<(), AssembleError>)
        ensures
            match encode_line(old(self)@.encoding(), old(self)@.instruction_buffer) {
                Ok(encoded) => result is Ok && final(self)@ == (AssemblerView {
                    instruction_buffer: Seq::empty(),
                    symbol_table: encoded.symbols,
                    output: encoded.output,
                    ..old(self)@
                }),
                Err(failure) => result is Err && result->Err_0@ == failure && final(self)@ == old(
                    self,
                )@,
            },
    {
        let (start, end) = trim_bounds(self.instruction_buffer.as_slice());
        if end > start {
            let first_char = self.instruction_buffer[start];
            if first_char == '@' {
                match self.assemble_a_type_instruction() {
                    Ok(()) => {},
                    Err(error) => {
                        return Err(error);
                    },
                }
            } else if first_char == '(' {
                if end - start < 2 || self.instruction_buffer[end - 1] != ')' {
                    let token = collect_string(&self.instruction_buffer[start..end]);
                    return Err(AssembleError::new(ErrorKind::MalformedLabel, token));
                }
                let symbol_name = collect_string(&self.instruction_buffer[start + 1..end - 1]);
                assert(symbol_name@ =~= label_name(trim(self.instruction_buffer@)));
                let count = self.output.len();
                let address = #[verifier::truncate] (count as u16);
                assert(count as u16 == count % 0x10000) by (bit_vector);
                let bound = self.address_of(symbol_name.as_str());
                if bound.is_some() && bound.unwrap() != address {
                    return Err(AssembleError::new(ErrorKind::SymbolRedefined, symbol_name));
                }
                self.symbol_table.insert(symbol_name, address);
            } else {
                match self.assemble_c_type_instruction() {
                    Ok(()) => {},
                    Err(error) => {
                        return Err(error);
                    },
                }
            }
        }
        self.instruction_buffer.clear();
        Ok(())
    }

    /// Reads one character of the source: one step of the tokenizer. Where
    /// the character ends a line, the line is encoded. Where that fails, the
    /// assembler is left as it was.
    pub fn advance(&mut self, c: char) -> (result: Result<(), AssembleError>)
        ensures
            ends_line(old(self)@.state, c) ==> match encode_line(
                old(self)@.encoding(),
                old(self)@.instruction_buffer,
            ) {
                Ok(encoded) => result is Ok && final(self)@ == (AssemblerView {
                    state: next_state(old(self)@.state, c),
                    instruction_buffer: Seq::empty(),
                    symbol_table: encoded.symbols,
                    output: encoded.output,
                    ..old(self)@
                }),
                Err(failure) => result is Err && result->Err_0@ == failure && final(self)@ == old(
                    self,
                )@,
            },
            !ends_line(old(self)@.state, c) ==> result is Ok && final(self)@ == (AssemblerView {
                state: next_state(old(self)@.state, c),
                instruction_buffer: next_buffer(
                    old(self)@.state,
                    old(self)@.instruction_buffer,
                    c,
                ),
                ..old(self)@
            }),
    {
        match self.state {
            AssemblerState::LookingForInstruction => {
                if c == '/' {
                    self.state = AssemblerState::OneSlash;
                    Ok(())
                } else if c == '\n' {
                    self.assemble_instruction()
                } else {
                    self.instruction_buffer.push(c);
                    Ok(())
                }
            },
            AssemblerState::OneSlash => {
                if c == '/' {
                    self.state = AssemblerState::Comment;
                } else {
                    self.state = AssemblerState::LookingForInstruction;
                    self.instruction_buffer.push('/');
                    self.instruction_buffer.push(c);
                }
                Ok(())
            },
            AssemblerState::Comment => {
                if c == '\n' {
                    match self.assemble_instruction() {
                        Ok(()) => {
                            self.state = AssemblerState::LookingForInstruction;
                            Ok(())
                        },
                        Err(error) => Err(error),
                    }
                } else {
                    Ok(())
                }
            },
        }
    }

    /// Assembles `source`: reads it to its end, encodes the line that the
    /// end of input leaves in the buffer, and resolves the symbols. The
    /// first failure ends the run, and no word is returned.
    pub fn assemble_source(self, source: &str) -> (result: Result<Vec<u16>, AssembleError>)
        ensures
            outcome(result) == assembly_from(self@, source@),
    {
        let mut assembler = self;
        let ghost start = assembler@;
        for c in it: source.chars()
            invariant
                start == self@,
                it.seq() == source@,
                assembler@.extra_data_address == start.extra_data_address,
                ({
                    let reached = scan(start.scanning(), source@.take(it.index() as int));
                    &&& assembler@.state == reached.state
                    &&& assembler@.instruction_buffer == reached.buffer
                    &&& encode_lines(start.encoding(), reached.lines) == Ok::<Encoding, Failure>(
                        assembler@.encoding(),
                    )
                }),
        {
            let ghost k = it.index() as int;
            proof {
                lemma_scan_take_next(start.scanning(), source@, k);
            }
            match assembler.advance(c) {
                Ok(()) => {
                    proof {
                        let before = scan(start.scanning(), source@.take(k));
                        if ends_line(before.state, c) {
                            assert(before.lines.push(before.buffer).drop_last() =~= before.lines);
                        }
                    }
                },
                Err(error) => {
                    proof {
                        let before = scan(start.scanning(), source@.take(k));
                        let after = scan(start.scanning(), source@.take(k + 1));
                        let end = scan(start.scanning(), source@);
                        assert(after.lines.drop_last() =~= before.lines);
                        lemma_scan_keeps_lines(start.scanning(), source@, k + 1);
                        let lines = end.lines.push(end.buffer);
                        let more = lines.skip(after.lines.len() as int);
                        assert(lines =~= after.lines + more);
                        lemma_encode_lines_concat(start.encoding(), after.lines, more);
                    }
                    return Err(error);
                },
            }
        }
        proof {
            assert(source@.take(source@.len() as int) =~= source@);
            let end = scan(start.scanning(), source@);
            assert(end.lines.push(end.buffer).drop_last() =~= end.lines);
        }
        match assembler.assemble_instruction() {
            Ok(()) => {},
            Err(error) => {
                return Err(error);
            },
        }
        assembler.finalize()
    }

    /// Resolves one instruction. A finished word is returned as it is. A
    /// name that the symbol table holds gives its address. Any other name
    /// becomes a variable: it is bound to the next free data address, which
    /// is returned, and the address after it becomes the next free one.
    /// That fails where the next free address is the last address of all,
    /// and the assembler is then left as it was.
    pub fn finalize_instruction(&mut self, instruction: PartiallyAssembledInstruction) -> (result:
        Result<u16, AssembleError>)
        ensures
            match resolve_instruction(old(self)@.resolution(), instruction@) {
                Ok(resolved) => result is Ok && result->Ok_0 == resolved.words.last()
                    && final(self)@ == (AssemblerView {
                    symbol_table: resolved.symbols,
                    extra_data_address: resolved.next_variable,
                    ..old(self)@
                }),
                Err(failure) => result is Err && result->Err_0@ == failure && final(self)@ == old(
                    self,
                )@,
            },
    {
        match instruction {
            PartiallyAssembledInstruction::Complete(value) => Ok(value),
            PartiallyAssembledInstruction::SymbolicAddress(symbol) => {
                match self.symbol_table.get(symbol.as_str()) {
                    Some(value) => Ok(*value),
                    None => {
                        let address = self.extra_data_address;
                        if address == u16::MAX {
                            return Err(AssembleError::new(ErrorKind::OutOfVariables, symbol));
                        }
                        self.extra_data_address = address + 1;
                        self.symbol_table.insert(symbol, address);
                        Ok(address)
                    },
                }
            },
        }
    }

    /// Resolves the instructions encoded so far, in order, and returns
    /// their words. The first failure ends it, and no word is returned.
    pub fn finalize(self) -> (result: Result<Vec<u16>, AssembleError>)
        ensures
            outcome(result) == resolved_words(
                self@.symbol_table,
                self@.extra_data_address,
                self@.output,
            ),
    {
        let mut assembler = self;
        let ghost start = assembler@.resolution();
        let ghost instructions = assembler@.output;
        let mut partial: Vec<PartiallyAssembledInstruction> = Vec::new();
        core::mem::swap(&mut partial, &mut assembler.output);
        let mut words: Vec<u16> = Vec::new();
        for instruction in it: partial
            invariant
                start == self@.resolution(),
                instructions == self@.output,
                it.seq().map_values(|i: PartiallyAssembledInstruction| i@) == instructions,
                resolve(start, instructions.take(it.index() as int)) == Ok::<Resolution, Failure>(
                    Resolution {
                        symbols: assembler@.symbol_table,
                        next_variable: assembler@.extra_data_address,
                        words: words@,
                    },
                ),
        {
            let ghost k = it.index() as int;
            proof {
                assert(instructions.take(k + 1).drop_last() =~= instructions.take(k));
            }
            match assembler.finalize_instruction(instruction) {
                Ok(word) => {
                    words.push(word);
                },
                Err(error) => {
                    proof {
                        let more = instructions.skip(k + 1);
                        assert(instructions =~= instructions.take(k + 1) + more);
                        lemma_resolve_concat(start, instructions.take(k + 1), more);
                    }
                    return Err(error);
                },
            }
        }
        proof {
            assert(instructions.take(instructions.len() as int) =~= instructions);
        }
        Ok(words)
    }
}

/// Assembles `source` with a new assembler: the words of its instructions,
/// in order, or the first failure.
pub fn assemble(source: &str) -> (result: Result<Vec<u16>, AssembleError>)
    ensures
        outcome(result) == assembly(source@),
{
    Assembler::new().assemble_source(source)
}

} // verus!
