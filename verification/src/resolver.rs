//! The resolver: the second pass, which turns every symbolic address into a
//! number.
//!
//! A name that the symbol table holds gets its address. Any other name is a
//! new variable: it gets the next free data address and is entered in the
//! table, so that a later use of it finds the same address.

use crate::encoder::PartialInstruction;
use crate::error::{ErrorKind, Failure};
use vstd::prelude::*;

verus! {

/// The address of the first variable. The addresses below it belong to the
/// registers.
pub const FIRST_VARIABLE_ADDRESS: u16 = 16;

/// The resolver after some instructions: the symbol table, the next free
/// data address, and the words so far.
pub struct Resolution {
    pub symbols: Map<Seq<char>, u16>,
    pub next_variable: u16,
    pub words: Seq<u16>,
}

/// The resolver after one more instruction. It fails only where a new
/// variable is met and the next free address is the last one of all, since
/// no address would be left to follow it.
pub open spec fn resolve_instruction(
    before: Resolution,
    instruction: PartialInstruction,
) -> Result<Resolution, Failure> {
    match instruction {
        PartialInstruction::Complete(word) => Ok(
            Resolution { words: before.words.push(word), ..before },
        ),
        PartialInstruction::SymbolicAddress(name) => if before.symbols.contains_key(name) {
            Ok(Resolution { words: before.words.push(before.symbols[name]), ..before })
        } else if before.next_variable == u16::MAX {
            Err(Failure { kind: ErrorKind::OutOfVariables, token: name })
        } else {
            Ok(
                Resolution {
                    symbols: before.symbols.insert(name, before.next_variable),
                    next_variable: (before.next_variable + 1) as u16,
                    words: before.words.push(before.next_variable),
                },
            )
        },
    }
}

/// The resolver after a sequence of instructions, taken in order. The
/// first failure ends it.
pub open spec fn resolve(
    start: Resolution,
    instructions: Seq<PartialInstruction>,
) -> Result<Resolution, Failure>
    decreases instructions.len(),
{
    if instructions.len() == 0 {
        Ok(start)
    } else {
        match resolve(start, instructions.drop_last()) {
            Ok(before) => resolve_instruction(before, instructions.last()),
            Err(failure) => Err(failure),
        }
    }
}

/// The words that `instructions` resolve to, with the given symbol table
/// and first free data address.
pub open spec fn resolved_words(
    symbols: Map<Seq<char>, u16>,
    next_variable: u16,
    instructions: Seq<PartialInstruction>,
) -> Result<Seq<u16>, Failure> {
    match resolve(Resolution { symbols, next_variable, words: Seq::empty() }, instructions) {
        Ok(end) => Ok(end.words),
        Err(failure) => Err(failure),
    }
}

/// Resolving two runs of instructions one after the other is resolving
/// their concatenation. Once an instruction has failed, those after it
/// change nothing.
pub proof fn lemma_resolve_concat(
    start: Resolution,
    first: Seq<PartialInstruction>,
    second: Seq<PartialInstruction>,
)
    ensures
        resolve(start, first + second) == match resolve(start, first) {
            Ok(middle) => resolve(middle, second),
            Err(failure) => Err(failure),
        },
    decreases second.len(),
{
    if second.len() > 0 {
        assert((first + second).drop_last() =~= first + second.drop_last());
        lemma_resolve_concat(start, first, second.drop_last());
    }
}

/// Whether `name` is a variable of a run of the resolver: a name that the
/// run has bound and that was not bound before it.
pub open spec fn is_variable(start: Resolution, end: Resolution, name: Seq<char>) -> bool {
    end.symbols.contains_key(name) && !start.symbols.contains_key(name)
}

/// What holds of every run of the resolver that succeeds.
///
/// Every instruction gives one word, in order. A finished word stays as it
/// is, and a symbolic address becomes the address that its name has in the
/// table at the end. No binding is ever changed: what was bound at the start
/// has the same address at the end. Each variable has an address of its own,
/// taken from those between the first free address at the start and the
/// first free address at the end, and it is the name of some symbolic
/// address among the instructions.
pub proof fn lemma_resolve_facts(start: Resolution, instructions: Seq<PartialInstruction>)
    requires
        resolve(start, instructions) is Ok,
    ensures
        ({
            let end = resolve(start, instructions)->Ok_0;
            &&& end.words.len() == start.words.len() + instructions.len()
            &&& end.words.take(start.words.len() as int) == start.words
            &&& start.next_variable <= end.next_variable
            &&& forall|name: Seq<char>| #[trigger]
                start.symbols.contains_key(name) ==> end.symbols.contains_key(name)
                    && end.symbols[name] == start.symbols[name]
            &&& forall|i: int|
                0 <= i < instructions.len() ==> match #[trigger] instructions[i] {
                    PartialInstruction::Complete(word) => end.words[start.words.len() + i] == word,
                    PartialInstruction::SymbolicAddress(name) => end.symbols.contains_key(name)
                        && end.words[start.words.len() + i] == end.symbols[name],
                }
            &&& forall|name: Seq<char>| #[trigger]
                is_variable(start, end, name) ==> start.next_variable <= end.symbols[name]
                    < end.next_variable
            &&& forall|a: Seq<char>, b: Seq<char>|
                #![trigger is_variable(start, end, a), is_variable(start, end, b)]
                is_variable(start, end, a) && is_variable(start, end, b) && a != b
                    ==> end.symbols[a] != end.symbols[b]
            &&& forall|name: Seq<char>| #[trigger]
                is_variable(start, end, name) ==> instructions.contains(
                    PartialInstruction::SymbolicAddress(name),
                )
        }),
    decreases instructions.len(),
{
    let end = resolve(start, instructions)->Ok_0;
    if instructions.len() > 0 {
        let earlier = instructions.drop_last();
        let middle = resolve(start, earlier)->Ok_0;
        lemma_resolve_facts(start, earlier);
        assert forall|i: int| 0 <= i < instructions.len() implies match #[trigger] instructions[i] {
            PartialInstruction::Complete(word) => end.words[start.words.len() + i] == word,
            PartialInstruction::SymbolicAddress(name) => end.symbols.contains_key(name)
                && end.words[start.words.len() + i] == end.symbols[name],
        } by {
            if i < earlier.len() {
                assert(earlier[i] == instructions[i]);
            }
        }
        assert forall|name: Seq<char>| #[trigger]
            is_variable(start, end, name) implies start.next_variable <= end.symbols[name]
            < end.next_variable && instructions.contains(
            PartialInstruction::SymbolicAddress(name),
        ) by {
            if is_variable(start, middle, name) {
                // It is the name of an earlier instruction.
                let i = earlier.index_of(PartialInstruction::SymbolicAddress(name));
                assert(instructions[i] == earlier[i]);
            } else {
                // It is the name of the last instruction, which has bound it.
                assert(instructions[instructions.len() - 1]
                    == PartialInstruction::SymbolicAddress(name));
            }
        }
        assert forall|a: Seq<char>, b: Seq<char>|
            #![trigger is_variable(start, end, a), is_variable(start, end, b)]
            is_variable(start, end, a) && is_variable(start, end, b) && a != b implies
            end.symbols[a] != end.symbols[b] by {
            // At most one of the two is new with the last instruction, and
            // its address lies above those of all earlier variables.
            if is_variable(start, middle, a) && !is_variable(start, middle, b) {
                assert(end.symbols[a] < middle.next_variable == end.symbols[b]);
            } else if is_variable(start, middle, b) && !is_variable(start, middle, a) {
                assert(end.symbols[b] < middle.next_variable == end.symbols[a]);
            }
        }
    }
}

/// The variables of a run of the resolver.
pub open spec fn variables(start: Resolution, end: Resolution) -> Set<Seq<char>> {
    Set::new(|name: Seq<char>| is_variable(start, end, name))
}

/// The variables use up the data addresses one by one: the first free
/// address has moved on by the number of variables. With their addresses all
/// different and all between the old and the new first free address, the
/// variables have exactly those addresses, none left out.
pub proof fn lemma_variables_are_counted(start: Resolution, instructions: Seq<PartialInstruction>)
    requires
        resolve(start, instructions) is Ok,
    ensures
        variables(start, resolve(start, instructions)->Ok_0).finite(),
        variables(start, resolve(start, instructions)->Ok_0).len() == resolve(
            start,
            instructions,
        )->Ok_0.next_variable - start.next_variable,
    decreases instructions.len(),
{
    let end = resolve(start, instructions)->Ok_0;
    if instructions.len() == 0 {
        assert(variables(start, end) =~= Set::<Seq<char>>::empty());
    } else {
        let earlier = instructions.drop_last();
        let middle = resolve(start, earlier)->Ok_0;
        lemma_variables_are_counted(start, earlier);
        lemma_resolve_facts(start, earlier);
        match instructions.last() {
            PartialInstruction::Complete(_) => {
                assert(variables(start, end) =~= variables(start, middle));
            },
            PartialInstruction::SymbolicAddress(name) => {
                if middle.symbols.contains_key(name) {
                    assert(variables(start, end) =~= variables(start, middle));
                } else {
                    assert(variables(start, end) =~= variables(start, middle).insert(name));
                }
            },
        }
    }
}

/// The resolver succeeds wherever the data addresses cannot run out:
/// where there are no more instructions than free addresses.
pub proof fn lemma_resolve_succeeds_with_room(
    start: Resolution,
    instructions: Seq<PartialInstruction>,
)
    requires
        start.next_variable + instructions.len() <= u16::MAX,
    ensures
        resolve(start, instructions) is Ok,
        resolve(start, instructions)->Ok_0.next_variable <= start.next_variable
            + instructions.len(),
    decreases instructions.len(),
{
    if instructions.len() > 0 {
        lemma_resolve_succeeds_with_room(start, instructions.drop_last());
    }
}

/// The resolver fails for one reason only: no data address is left.
pub proof fn lemma_resolve_fails_for_want_of_addresses(
    start: Resolution,
    instructions: Seq<PartialInstruction>,
)
    ensures
        resolve(start, instructions) is Err ==> resolve(start, instructions)->Err_0.kind
            == ErrorKind::OutOfVariables,
    decreases instructions.len(),
{
    if instructions.len() > 0 {
        lemma_resolve_fails_for_want_of_addresses(start, instructions.drop_last());
    }
}

} // verus!
