//! The symbols that every program starts with.

use vstd::hash_map::StringHashMap;
use vstd::prelude::*;

verus! {

/// The symbol table before any line is read: the five pointers, the two
/// memory-mapped devices and the sixteen registers `R0` to `R15`.
pub open spec fn predefined_symbols() -> Map<Seq<char>, u16> {
    Map::<Seq<char>, u16>::empty()
        .insert("SP"@, 0)
        .insert("LCL"@, 1)
        .insert("ARG"@, 2)
        .insert("THIS"@, 3)
        .insert("THAT"@, 4)
        .insert("SCREEN"@, 0x4000)
        .insert("KBD"@, 0x6000)
        .insert("R0"@, 0)
        .insert("R1"@, 1)
        .insert("R2"@, 2)
        .insert("R3"@, 3)
        .insert("R4"@, 4)
        .insert("R5"@, 5)
        .insert("R6"@, 6)
        .insert("R7"@, 7)
        .insert("R8"@, 8)
        .insert("R9"@, 9)
        .insert("R10"@, 10)
        .insert("R11"@, 11)
        .insert("R12"@, 12)
        .insert("R13"@, 13)
        .insert("R14"@, 14)
        .insert("R15"@, 15)
}

/// The addresses of the predefined symbols, one by one.
pub proof fn lemma_predefined_addresses()
    ensures
        ({
            let symbols = predefined_symbols();
            &&& symbols.contains_key("SP"@) && symbols["SP"@] == 0
            &&& symbols.contains_key("LCL"@) && symbols["LCL"@] == 1
            &&& symbols.contains_key("ARG"@) && symbols["ARG"@] == 2
            &&& symbols.contains_key("THIS"@) && symbols["THIS"@] == 3
            &&& symbols.contains_key("THAT"@) && symbols["THAT"@] == 4
            &&& symbols.contains_key("SCREEN"@) && symbols["SCREEN"@] == 0x4000
            &&& symbols.contains_key("KBD"@) && symbols["KBD"@] == 0x6000
            &&& symbols.contains_key("R0"@) && symbols["R0"@] == 0
            &&& symbols.contains_key("R1"@) && symbols["R1"@] == 1
            &&& symbols.contains_key("R2"@) && symbols["R2"@] == 2
            &&& symbols.contains_key("R3"@) && symbols["R3"@] == 3
            &&& symbols.contains_key("R4"@) && symbols["R4"@] == 4
            &&& symbols.contains_key("R5"@) && symbols["R5"@] == 5
            &&& symbols.contains_key("R6"@) && symbols["R6"@] == 6
            &&& symbols.contains_key("R7"@) && symbols["R7"@] == 7
            &&& symbols.contains_key("R8"@) && symbols["R8"@] == 8
            &&& symbols.contains_key("R9"@) && symbols["R9"@] == 9
            &&& symbols.contains_key("R10"@) && symbols["R10"@] == 10
            &&& symbols.contains_key("R11"@) && symbols["R11"@] == 11
            &&& symbols.contains_key("R12"@) && symbols["R12"@] == 12
            &&& symbols.contains_key("R13"@) && symbols["R13"@] == 13
            &&& symbols.contains_key("R14"@) && symbols["R14"@] == 14
            &&& symbols.contains_key("R15"@) && symbols["R15"@] == 15
        }),
{
    // Spelling the names out lets the solver tell them apart.
    assert("SP"@.len() == 2 && "SP"@[0] == 'S' && "SP"@[1] == 'P') by {
        reveal_strlit("SP");
    }
    assert("LCL"@.len() == 3 && "LCL"@[0] == 'L' && "LCL"@[1] == 'C' && "LCL"@[2] == 'L') by {
        reveal_strlit("LCL");
    }
    assert("ARG"@.len() == 3 && "ARG"@[0] == 'A' && "ARG"@[1] == 'R' && "ARG"@[2] == 'G') by {
        reveal_strlit("ARG");
    }
    assert("THIS"@.len() == 4
        && "THIS"@[0] == 'T'
        && "THIS"@[1] == 'H'
        && "THIS"@[2] == 'I'
        && "THIS"@[3] == 'S') by {
        reveal_strlit("THIS");
    }
    assert("THAT"@.len() == 4
        && "THAT"@[0] == 'T'
        && "THAT"@[1] == 'H'
        && "THAT"@[2] == 'A'
        && "THAT"@[3] == 'T') by {
        reveal_strlit("THAT");
    }
    assert("SCREEN"@.len() == 6
        && "SCREEN"@[0] == 'S'
        && "SCREEN"@[1] == 'C'
        && "SCREEN"@[2] == 'R'
        && "SCREEN"@[3] == 'E'
        && "SCREEN"@[4] == 'E'
        && "SCREEN"@[5] == 'N') by {
        reveal_strlit("SCREEN");
    }
    assert("KBD"@.len() == 3 && "KBD"@[0] == 'K' && "KBD"@[1] == 'B' && "KBD"@[2] == 'D') by {
        reveal_strlit("KBD");
    }
    assert("R0"@.len() == 2 && "R0"@[0] == 'R' && "R0"@[1] == '0') by {
        reveal_strlit("R0");
    }
    assert("R1"@.len() == 2 && "R1"@[0] == 'R' && "R1"@[1] == '1') by {
        reveal_strlit("R1");
    }
    assert("R2"@.len() == 2 && "R2"@[0] == 'R' && "R2"@[1] == '2') by {
        reveal_strlit("R2");
    }
    assert("R3"@.len() == 2 && "R3"@[0] == 'R' && "R3"@[1] == '3') by {
        reveal_strlit("R3");
    }
    assert("R4"@.len() == 2 && "R4"@[0] == 'R' && "R4"@[1] == '4') by {
        reveal_strlit("R4");
    }
    assert("R5"@.len() == 2 && "R5"@[0] == 'R' && "R5"@[1] == '5') by {
        reveal_strlit("R5");
    }
    assert("R6"@.len() == 2 && "R6"@[0] == 'R' && "R6"@[1] == '6') by {
        reveal_strlit("R6");
    }
    assert("R7"@.len() == 2 && "R7"@[0] == 'R' && "R7"@[1] == '7') by {
        reveal_strlit("R7");
    }
    assert("R8"@.len() == 2 && "R8"@[0] == 'R' && "R8"@[1] == '8') by {
        reveal_strlit("R8");
    }
    assert("R9"@.len() == 2 && "R9"@[0] == 'R' && "R9"@[1] == '9') by {
        reveal_strlit("R9");
    }
    assert("R10"@.len() == 3 && "R10"@[0] == 'R' && "R10"@[1] == '1' && "R10"@[2] == '0') by {
        reveal_strlit("R10");
    }
    assert("R11"@.len() == 3 && "R11"@[0] == 'R' && "R11"@[1] == '1' && "R11"@[2] == '1') by {
        reveal_strlit("R11");
    }
    assert("R12"@.len() == 3 && "R12"@[0] == 'R' && "R12"@[1] == '1' && "R12"@[2] == '2') by {
        reveal_strlit("R12");
    }
    assert("R13"@.len() == 3 && "R13"@[0] == 'R' && "R13"@[1] == '1' && "R13"@[2] == '3') by {
        reveal_strlit("R13");
    }
    assert("R14"@.len() == 3 && "R14"@[0] == 'R' && "R14"@[1] == '1' && "R14"@[2] == '4') by {
        reveal_strlit("R14");
    }
    assert("R15"@.len() == 3 && "R15"@[0] == 'R' && "R15"@[1] == '1' && "R15"@[2] == '5') by {
        reveal_strlit("R15");
    }
}

/// A new symbol table that holds the predefined symbols.
pub fn predefined_symbol_table() -> (table: StringHashMap<u16>)
    ensures
        table@ == predefined_symbols(),
{
    let mut table: StringHashMap<u16> = StringHashMap::new();
    table.insert(String::from_str("SP"), 0);
    table.insert(String::from_str("LCL"), 1);
    table.insert(String::from_str("ARG"), 2);
    table.insert(String::from_str("THIS"), 3);
    table.insert(String::from_str("THAT"), 4);
    table.insert(String::from_str("SCREEN"), 0x4000);
    table.insert(String::from_str("KBD"), 0x6000);
    table.insert(String::from_str("R0"), 0);
    table.insert(String::from_str("R1"), 1);
    table.insert(String::from_str("R2"), 2);
    table.insert(String::from_str("R3"), 3);
    table.insert(String::from_str("R4"), 4);
    table.insert(String::from_str("R5"), 5);
    table.insert(String::from_str("R6"), 6);
    table.insert(String::from_str("R7"), 7);
    table.insert(String::from_str("R8"), 8);
    table.insert(String::from_str("R9"), 9);
    table.insert(String::from_str("R10"), 10);
    table.insert(String::from_str("R11"), 11);
    table.insert(String::from_str("R12"), 12);
    table.insert(String::from_str("R13"), 13);
    table.insert(String::from_str("R14"), 14);
    table.insert(String::from_str("R15"), 15);
    table
}

} // verus!
