//! What holds of every source text and what it assembles to.

use crate::assembler::{assembly, encoding_of, initial_assembler, outcome};
use crate::encoder::{
    defines_label, encode_line, encode_lines, label_address, lemma_alike_lines_encode_alike,
    lemma_blank_lines_do_nothing, lemma_encode_lines_concat, lemma_encoding_grows,
    lemma_failing_line_stops, lemma_first_failure_decides, lemma_sound_lines_encode,
    line_failure, Encoding, PartialInstruction, MAX_ADDRESS,
};
use crate::error::{message_text, AssembleError, ErrorKind, Failure};
use crate::listing::listing;
use crate::resolver::{
    is_variable, lemma_resolve_concat, lemma_resolve_facts,
    lemma_resolve_fails_for_want_of_addresses, lemma_resolve_succeeds_with_room, resolve,
    Resolution, FIRST_VARIABLE_ADDRESS,
};
use crate::symbols::predefined_symbols;
use crate::text::{
    is_blank, is_numeral, lemma_trim_ignores_padding, lines_alike, numeral_value, trim,
};
use crate::tokenizer::{
    is_empty_line, join_lines, lemma_alike_scans_give_alike_lines, lemma_scan_appends_lines,
    lemma_scan_blank_text, lemma_scan_comment_opens, lemma_scan_concat, lemma_scan_empty_lines,
    lemma_scan_final_comment, lemma_scan_keeps_alike, lemma_scan_one, lemma_scan_skips_comment,
    logical_lines, scan, AssemblerState, Scan,
};
use vstd::prelude::*;

verus! {

/// The tokenizer before the first character of a source.
pub open spec fn initial_scan() -> Scan {
    initial_assembler().scanning()
}

/// The resolver before the first instruction of a source whose first pass
/// gave `encoded`.
pub open spec fn initial_resolution(encoded: Encoding) -> Resolution {
    Resolution {
        symbols: encoded.symbols,
        next_variable: FIRST_VARIABLE_ADDRESS,
        words: Seq::empty(),
    }
}

/// Assembling is a function of the source text alone: two runs on the
/// same text return the same words, or the same failure, and the
/// listings written from them are the same, character by character.
pub proof fn theorem_assembly_is_deterministic(
    source: Seq<char>,
    first: Result<Vec<u16>, AssembleError>,
    second: Result<Vec<u16>, AssembleError>,
)
    requires
        outcome(first) == assembly(source),
        outcome(second) == assembly(source),
    ensures
        first is Ok ==> second is Ok && first->Ok_0@ == second->Ok_0@ && listing(first->Ok_0@)
            == listing(second->Ok_0@),
        first is Err ==> second is Err && first->Err_0@ == second->Err_0@ && message_text(
            first->Err_0@,
        ) == message_text(second->Err_0@),
{
}

/// A run that succeeds gives one word for each instruction of the
/// first pass, and a finished instruction gives its own word.
pub proof fn theorem_one_word_per_instruction(source: Seq<char>)
    requires
        assembly(source) is Ok,
    ensures
        encoding_of(source) is Ok,
        assembly(source)->Ok_0.len() == encoding_of(source)->Ok_0.output.len(),
        forall|i: int|
            0 <= i < assembly(source)->Ok_0.len() ==> (#[trigger] encoding_of(
                source,
            )->Ok_0.output[i] matches PartialInstruction::Complete(word) ==> assembly(
                source,
            )->Ok_0[i] == word),
{
    let encoded = encoding_of(source)->Ok_0;
    lemma_resolve_facts(initial_resolution(encoded), encoded.output);
}

/// A symbol that is bound when the first pass ends resolves to the address
/// that it is bound to, wherever it is used: before the line that binds it
/// or after. It is never taken for a variable.
pub proof fn theorem_bound_symbol_resolves_to_its_address(
    source: Seq<char>,
    index: int,
    name: Seq<char>,
)
    requires
        assembly(source) is Ok,
        0 <= index < encoding_of(source)->Ok_0.output.len(),
        encoding_of(source)->Ok_0.output[index] == PartialInstruction::SymbolicAddress(name),
        encoding_of(source)->Ok_0.symbols.contains_key(name),
    ensures
        assembly(source)->Ok_0[index] == encoding_of(source)->Ok_0.symbols[name],
{
    let encoded = encoding_of(source)->Ok_0;
    lemma_resolve_facts(initial_resolution(encoded), encoded.output);
    assert(initial_resolution(encoded).symbols.contains_key(name));
}

/// Once bound, a symbol keeps its address: what is bound after some of the
/// lines is bound to the same address after all of them.
pub proof fn theorem_binding_never_changes(source: Seq<char>, lines_read: int, name: Seq<char>)
    requires
        encoding_of(source) is Ok,
        0 <= lines_read <= logical_lines(source).len(),
        encode_lines(
            initial_assembler().encoding(),
            logical_lines(source).take(lines_read),
        ) matches Ok(reached) && reached.symbols.contains_key(name),
    ensures
        encoding_of(source)->Ok_0.symbols.contains_key(name),
        encoding_of(source)->Ok_0.symbols[name] == encode_lines(
            initial_assembler().encoding(),
            logical_lines(source).take(lines_read),
        )->Ok_0.symbols[name],
{
    let start = initial_assembler().encoding();
    let lines = logical_lines(source);
    let read = lines.take(lines_read);
    let rest = lines.skip(lines_read);
    assert(lines =~= read + rest);
    lemma_encode_lines_concat(start, read, rest);
    lemma_encoding_grows(encode_lines(start, read)->Ok_0, rest);
}

/// A label resolves to the number of instructions that stand before its
/// line, kept to sixteen bits, wherever it is used: a use before the
/// definition gets the same address as one after it.
pub proof fn theorem_label_resolves_to_its_address(
    source: Seq<char>,
    definition: int,
    index: int,
    name: Seq<char>,
)
    requires
        assembly(source) is Ok,
        0 <= definition < logical_lines(source).len(),
        defines_label(logical_lines(source)[definition], name),
        0 <= index < encoding_of(source)->Ok_0.output.len(),
        encoding_of(source)->Ok_0.output[index] == PartialInstruction::SymbolicAddress(name),
    ensures
        encode_lines(
            initial_assembler().encoding(),
            logical_lines(source).take(definition),
        ) is Ok,
        assembly(source)->Ok_0[index] == label_address(
            encode_lines(
                initial_assembler().encoding(),
                logical_lines(source).take(definition),
            )->Ok_0.output.len(),
        ),
{
    let start = initial_assembler().encoding();
    let lines = logical_lines(source);
    let through = lines.take(definition + 1);
    let after = lines.skip(definition + 1);
    assert(lines =~= through + after);
    assert(through.drop_last() =~= lines.take(definition));
    lemma_encode_lines_concat(start, through, after);
    theorem_binding_never_changes(source, definition + 1, name);
    theorem_bound_symbol_resolves_to_its_address(source, index, name);
}

/// A predefined symbol resolves to its predefined address, wherever and
/// in whatever order it is used.
pub proof fn theorem_predefined_symbol_keeps_its_address(
    source: Seq<char>,
    index: int,
    name: Seq<char>,
)
    requires
        assembly(source) is Ok,
        predefined_symbols().contains_key(name),
        0 <= index < encoding_of(source)->Ok_0.output.len(),
        encoding_of(source)->Ok_0.output[index] == PartialInstruction::SymbolicAddress(name),
    ensures
        assembly(source)->Ok_0[index] == predefined_symbols()[name],
{
    lemma_encoding_grows(initial_assembler().encoding(), logical_lines(source));
    assert(initial_assembler().encoding().symbols.contains_key(name));
    theorem_bound_symbol_resolves_to_its_address(source, index, name);
}

/// A name has one address: two symbolic addresses with the same name
/// resolve to the same word.
pub proof fn theorem_same_name_same_address(source: Seq<char>, first: int, second: int)
    requires
        assembly(source) is Ok,
        0 <= first < encoding_of(source)->Ok_0.output.len(),
        0 <= second < encoding_of(source)->Ok_0.output.len(),
        encoding_of(source)->Ok_0.output[first] is SymbolicAddress,
        encoding_of(source)->Ok_0.output[first] == encoding_of(source)->Ok_0.output[second],
    ensures
        assembly(source)->Ok_0[first] == assembly(source)->Ok_0[second],
{
    let encoded = encoding_of(source)->Ok_0;
    lemma_resolve_facts(initial_resolution(encoded), encoded.output);
}

/// Variables get their addresses in the order of their first use: where
/// one variable is used before another is used at all, its address is the
/// smaller one. No variable has an address below the first data address, and
/// no two variables share one.
pub proof fn theorem_variables_in_order_of_first_use(
    source: Seq<char>,
    first: int,
    second: int,
    a: Seq<char>,
    b: Seq<char>,
)
    requires
        assembly(source) is Ok,
        0 <= first < second < encoding_of(source)->Ok_0.output.len(),
        encoding_of(source)->Ok_0.output[first] == PartialInstruction::SymbolicAddress(a),
        encoding_of(source)->Ok_0.output[second] == PartialInstruction::SymbolicAddress(b),
        !encoding_of(source)->Ok_0.symbols.contains_key(a),
        !encoding_of(source)->Ok_0.symbols.contains_key(b),
        forall|earlier: int|
            0 <= earlier <= first ==> #[trigger] encoding_of(source)->Ok_0.output[earlier]
                != PartialInstruction::SymbolicAddress(b),
    ensures
        FIRST_VARIABLE_ADDRESS <= assembly(source)->Ok_0[first] < assembly(source)->Ok_0[second],
{
    let encoded = encoding_of(source)->Ok_0;
    let start = initial_resolution(encoded);
    let instructions = encoded.output;
    let head = instructions.take(first + 1);
    let tail = instructions.skip(first + 1);
    assert(instructions =~= head + tail);
    lemma_resolve_concat(start, head, tail);
    let middle = resolve(start, head)->Ok_0;
    let end = resolve(start, instructions)->Ok_0;
    lemma_resolve_facts(start, head);
    lemma_resolve_facts(middle, tail);
    assert(is_variable(start, middle, a));
    assert(!is_variable(start, middle, b));
    assert(is_variable(middle, end, b));
}

/// A source whose lines are all blank once the comments are taken out
/// assembles to no word at all.
pub proof fn theorem_blank_source_has_no_words(source: Seq<char>)
    requires
        forall|i: int|
            0 <= i < logical_lines(source).len() ==> is_blank(#[trigger] logical_lines(source)[i]),
    ensures
        assembly(source) == Ok::<Seq<u16>, Failure>(Seq::empty()),
{
    lemma_blank_lines_do_nothing(initial_assembler().encoding(), logical_lines(source));
}

/// A comment changes nothing. Where instruction text may stand after
/// `head`, a comment put there, up to the end of its line, leaves the
/// result what it is without the comment.
pub proof fn theorem_comment_changes_nothing(
    head: Seq<char>,
    comment: Seq<char>,
    tail: Seq<char>,
)
    requires
        scan(initial_scan(), head).state == AssemblerState::LookingForInstruction,
        !comment.contains('\n'),
    ensures
        assembly(head + seq!['/', '/'] + comment + seq!['\n'] + tail) == assembly(
            head + seq!['\n'] + tail,
        ),
        assembly(head + seq!['/', '/'] + comment) == assembly(head),
{
    let start = initial_scan();
    let reached = scan(start, head);
    let commented = seq!['/', '/'] + comment + seq!['\n'];
    lemma_scan_skips_comment(reached, comment);
    lemma_scan_concat(start, head, commented);
    lemma_scan_concat(start, head, seq!['\n']);
    lemma_scan_concat(start, head + commented, tail);
    lemma_scan_concat(start, head + seq!['\n'], tail);
    assert(head + seq!['/', '/'] + comment + seq!['\n'] + tail =~= head + commented + tail);
    lemma_scan_final_comment(reached, comment);
    lemma_scan_concat(start, head, seq!['/', '/'] + comment);
    assert(head + seq!['/', '/'] + comment =~= head + (seq!['/', '/'] + comment));
}

/// A source that holds only blank lines and comments assembles to no word
/// at all.
pub proof fn theorem_blank_lines_and_comments_give_no_words(lines: Seq<Seq<char>>)
    requires
        forall|i: int| 0 <= i < lines.len() ==> is_empty_line(#[trigger] lines[i]),
    ensures
        assembly(join_lines(lines)) == Ok::<Seq<u16>, Failure>(Seq::empty()),
{
    let source = join_lines(lines);
    lemma_scan_empty_lines(initial_scan(), lines);
    theorem_blank_source_has_no_words(source);
}

/// The first line that fails stops the assembler, and its failure is the
/// one reported, whatever follows it.
pub proof fn theorem_first_failing_line_is_reported(source: Seq<char>, first: int)
    requires
        0 <= first < logical_lines(source).len(),
        encode_lines(
            initial_assembler().encoding(),
            logical_lines(source).take(first),
        ) matches Ok(before) && encode_line(before, logical_lines(source)[first]) is Err,
    ensures
        assembly(source) == Err::<Seq<u16>, Failure>(
            encode_line(
                encode_lines(
                    initial_assembler().encoding(),
                    logical_lines(source).take(first),
                )->Ok_0,
                logical_lines(source)[first],
            )->Err_0,
        ),
{
    lemma_first_failure_decides(initial_assembler().encoding(), logical_lines(source), first);
}

/// A source of which no line is at fault in its text fails for two
/// reasons only: a label redefines a symbol, or the variables use up the data
/// addresses. The second cannot happen where the source has fewer lines than
/// there are data addresses.
pub proof fn theorem_sound_source_is_assembled(source: Seq<char>)
    requires
        forall|i: int|
            0 <= i < logical_lines(source).len() ==> line_failure(
                #[trigger] logical_lines(source)[i],
            ) is None,
    ensures
        encoding_of(source) is Err ==> encoding_of(source)->Err_0.kind
            == ErrorKind::SymbolRedefined,
        assembly(source) is Err ==> assembly(source)->Err_0.kind == ErrorKind::SymbolRedefined
            || assembly(source)->Err_0.kind == ErrorKind::OutOfVariables,
        encoding_of(source) is Ok && FIRST_VARIABLE_ADDRESS + logical_lines(source).len()
            <= u16::MAX ==> assembly(source) is Ok,
{
    let start = initial_assembler().encoding();
    lemma_sound_lines_encode(start, logical_lines(source));
    if encoding_of(source) is Ok {
        lemma_encoding_grows(start, logical_lines(source));
        let encoded = encoding_of(source)->Ok_0;
        lemma_resolve_fails_for_want_of_addresses(initial_resolution(encoded), encoded.output);
        if FIRST_VARIABLE_ADDRESS + logical_lines(source).len() <= u16::MAX {
            lemma_resolve_succeeds_with_room(initial_resolution(encoded), encoded.output);
        }
    }
}

/// A numeral above the largest address is never cut down to fit: an `@`
/// line with such a numeral stops the assembler, and no word is returned.
pub proof fn theorem_address_above_range_is_fatal(source: Seq<char>, line: int)
    requires
        0 <= line < logical_lines(source).len(),
        trim(logical_lines(source)[line]).len() > 0,
        trim(logical_lines(source)[line]).first() == '@',
        is_numeral(trim(logical_lines(source)[line]).drop_first()),
        numeral_value(trim(logical_lines(source)[line]).drop_first()) > MAX_ADDRESS,
    ensures
        line_failure(logical_lines(source)[line]) == Some(
            Failure {
                kind: ErrorKind::AddressOutOfRange,
                token: trim(logical_lines(source)[line]).drop_first(),
            },
        ),
        assembly(source) is Err,
{
    lemma_failing_line_stops(initial_assembler().encoding(), logical_lines(source), line);
}

/// Sources whose lines differ in the white space around them alone
/// assemble alike.
proof fn lemma_alike_lines_assemble_alike(padded: Seq<char>, plain: Seq<char>)
    requires
        lines_alike(logical_lines(padded), logical_lines(plain)),
    ensures
        assembly(padded) == assembly(plain),
{
    lemma_alike_lines_encode_alike(
        initial_assembler().encoding(),
        logical_lines(padded),
        logical_lines(plain),
    );
}

/// White space at the start of a line changes nothing.
pub proof fn theorem_leading_white_space_changes_nothing(
    head: Seq<char>,
    padding: Seq<char>,
    tail: Seq<char>,
)
    requires
        scan(initial_scan(), head).state == AssemblerState::LookingForInstruction,
        scan(initial_scan(), head).buffer.len() == 0,
        is_blank(padding),
        !padding.contains('\n'),
    ensures
        assembly(head + padding + tail) == assembly(head + tail),
{
    let start = initial_scan();
    let none = Seq::<char>::empty();
    let plain = scan(start, head);
    let padded = scan(start, head + padding);
    lemma_scan_concat(start, head, padding);
    lemma_scan_blank_text(plain, padding);
    lemma_scan_keeps_alike(padding, none, padded, plain, tail);
    lemma_scan_concat(start, head + padding, tail);
    lemma_scan_concat(start, head, tail);
    lemma_alike_scans_give_alike_lines(padding, none, scan(padded, tail), scan(plain, tail));
    lemma_alike_lines_assemble_alike(head + padding + tail, head + tail);
}

/// White space at the end of a line changes nothing: before a line break,
/// before a comment, and at the end of the source.
pub proof fn theorem_trailing_white_space_changes_nothing(
    head: Seq<char>,
    padding: Seq<char>,
    tail: Seq<char>,
)
    requires
        scan(initial_scan(), head).state == AssemblerState::LookingForInstruction,
        is_blank(padding),
        !padding.contains('\n'),
        tail.len() == 0 || tail[0] == '\n' || (tail.len() >= 2 && tail[0] == '/' && tail[1]
            == '/'),
    ensures
        assembly(head + padding + tail) == assembly(head + tail),
{
    let start = initial_scan();
    let none = Seq::<char>::empty();
    let plain = scan(start, head);
    let padded = scan(start, head + padding);
    lemma_scan_concat(start, head, padding);
    lemma_scan_blank_text(plain, padding);
    lemma_trim_ignores_padding(none, plain.buffer, padding);
    if tail.len() > 0 {
        let opening = if tail[0] == '\n' {
            seq!['\n']
        } else {
            seq!['/', '/']
        };
        let rest = tail.skip(opening.len() as int);
        assert(head + padding + tail =~= head + padding + opening + rest);
        assert(head + tail =~= head + opening + rest);
        if tail[0] == '\n' {
            lemma_scan_one(padded, '\n');
            lemma_scan_one(plain, '\n');
        } else {
            lemma_scan_comment_opens(padded);
            lemma_scan_comment_opens(plain);
        }
        let padded_opened = scan(padded, opening);
        let plain_opened = scan(plain, opening);
        lemma_scan_keeps_alike(none, padding, padded_opened, plain_opened, rest);
        lemma_scan_concat(start, head + padding, opening);
        lemma_scan_concat(start, head, opening);
        lemma_scan_concat(start, head + padding + opening, rest);
        lemma_scan_concat(start, head + opening, rest);
        lemma_alike_scans_give_alike_lines(
            none,
            padding,
            scan(padded_opened, rest),
            scan(plain_opened, rest),
        );
    }
    lemma_alike_lines_assemble_alike(head + padding + tail, head + tail);
}

/// An empty line changes nothing.
pub proof fn theorem_empty_line_changes_nothing(head: Seq<char>, tail: Seq<char>)
    requires
        scan(initial_scan(), head).state == AssemblerState::LookingForInstruction,
        scan(initial_scan(), head).buffer.len() == 0,
    ensures
        assembly(head + seq!['\n'] + tail) == assembly(head + tail),
{
    let start = initial_scan();
    let encoding = initial_assembler().encoding();
    let plain = scan(start, head);
    let broken = scan(start, head + seq!['\n']);
    lemma_scan_concat(start, head, seq!['\n']);
    lemma_scan_one(plain, '\n');
    lemma_scan_concat(start, head + seq!['\n'], tail);
    lemma_scan_concat(start, head, tail);
    lemma_scan_appends_lines(broken, tail);
    lemma_scan_appends_lines(plain, tail);
    let fresh = scan(Scan { lines: Seq::empty(), ..plain }, tail);
    let added = fresh.lines.push(fresh.buffer);
    lemma_encode_lines_concat(encoding, plain.lines.push(Seq::empty()), added);
    lemma_encode_lines_concat(encoding, plain.lines, added);
    assert(plain.lines.push(Seq::empty()).drop_last() =~= plain.lines);
}

} // verus!
