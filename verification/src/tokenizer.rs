//! The tokenizer: a three-state machine that reads the source one character
//! at a time, drops comments and cuts the text into instruction lines.
//!
//! White space is kept: trimming belongs to the encoder.

use crate::text::{is_blank, lemma_trim_ignores_padding, lines_alike, trim};
use vstd::prelude::*;

verus! {

/// Where the tokenizer stands.
#[derive(Clone, Copy, Debug, PartialEq, Eq, Structural)]
pub enum AssemblerState {
    /// Reading the text of an instruction.
    LookingForInstruction,
    /// One `/` was read, and the next character decides whether a comment
    /// begins.
    OneSlash,
    /// Inside a comment, up to the end of the line.
    Comment,
}

/// The state after reading `c`.
pub open spec fn next_state(state: AssemblerState, c: char) -> AssemblerState {
    match state {
        AssemblerState::LookingForInstruction => if c == '/' {
            AssemblerState::OneSlash
        } else {
            AssemblerState::LookingForInstruction
        },
        AssemblerState::OneSlash => if c == '/' {
            AssemblerState::Comment
        } else {
            AssemblerState::LookingForInstruction
        },
        AssemblerState::Comment => if c == '\n' {
            AssemblerState::LookingForInstruction
        } else {
            AssemblerState::Comment
        },
    }
}

/// Whether reading `c` ends the line: a line break does, except right after
/// a single `/`, where it is kept as text.
pub open spec fn ends_line(state: AssemblerState, c: char) -> bool {
    c == '\n' && state != AssemblerState::OneSlash
}

/// The instruction buffer after reading `c`. A `/` is held back until the
/// next character shows that no comment begins; then both are appended.
pub open spec fn next_buffer(state: AssemblerState, buffer: Seq<char>, c: char) -> Seq<char> {
    match state {
        AssemblerState::LookingForInstruction => if c == '/' {
            buffer
        } else if c == '\n' {
            Seq::empty()
        } else {
            buffer.push(c)
        },
        AssemblerState::OneSlash => if c == '/' {
            buffer
        } else {
            buffer.push('/').push(c)
        },
        AssemblerState::Comment => if c == '\n' {
            Seq::empty()
        } else {
            buffer
        },
    }
}

/// The tokenizer after some text: its state, the unfinished line, and the
/// lines that it has finished, in order.
pub struct Scan {
    pub state: AssemblerState,
    pub buffer: Seq<char>,
    pub lines: Seq<Seq<char>>,
}

/// The tokenizer after reading one more character.
pub open spec fn scan_char(before: Scan, c: char) -> Scan {
    Scan {
        state: next_state(before.state, c),
        buffer: next_buffer(before.state, before.buffer, c),
        lines: if ends_line(before.state, c) {
            before.lines.push(before.buffer)
        } else {
            before.lines
        },
    }
}

/// The tokenizer after reading all of `source`, from `start` on.
pub open spec fn scan(start: Scan, source: Seq<char>) -> Scan
    decreases source.len(),
{
    if source.len() == 0 {
        start
    } else {
        scan_char(scan(start, source.drop_last()), source.last())
    }
}

/// The instruction lines of `source` for a tokenizer that starts in `state`
/// with `buffer`: the lines that end inside `source`, and then whatever the
/// buffer holds at the end of input.
pub open spec fn logical_lines_from(
    state: AssemblerState,
    buffer: Seq<char>,
    source: Seq<char>,
) -> Seq<Seq<char>> {
    let end = scan(Scan { state, buffer, lines: Seq::empty() }, source);
    end.lines.push(end.buffer)
}

/// The instruction lines of a whole source text.
pub open spec fn logical_lines(source: Seq<char>) -> Seq<Seq<char>> {
    logical_lines_from(AssemblerState::LookingForInstruction, Seq::empty(), source)
}

/// Reading on never changes a line that is finished: the lines after a
/// prefix of the source begin the lines after the whole of it.
pub proof fn lemma_scan_keeps_lines(start: Scan, source: Seq<char>, k: int)
    requires
        0 <= k <= source.len(),
    ensures
        scan(start, source.take(k)).lines.is_prefix_of(scan(start, source).lines),
    decreases source.len() - k,
{
    if k == source.len() {
        assert(source.take(k) =~= source);
    } else {
        assert(source.drop_last().take(k) =~= source.take(k));
        lemma_scan_keeps_lines(start, source.drop_last(), k);
    }
}

/// Reading one character more is one step of the machine.
pub proof fn lemma_scan_take_next(start: Scan, source: Seq<char>, k: int)
    requires
        0 <= k < source.len(),
    ensures
        scan(start, source.take(k + 1)) == scan_char(scan(start, source.take(k)), source[k]),
{
    assert(source.take(k + 1).drop_last() =~= source.take(k));
}

/// Reading two texts one after the other is reading their concatenation.
pub proof fn lemma_scan_concat(start: Scan, first: Seq<char>, second: Seq<char>)
    ensures
        scan(start, first + second) == scan(scan(start, first), second),
    decreases second.len(),
{
    if second.len() > 0 {
        assert((first + second).drop_last() =~= first + second.drop_last());
        lemma_scan_concat(start, first, second.drop_last());
    }
}

/// Reading a text of one character is one step of the machine.
pub proof fn lemma_scan_one(start: Scan, c: char)
    ensures
        scan(start, seq![c]) == scan_char(start, c),
{
    assert(seq![c].drop_last() =~= Seq::<char>::empty());
    assert(scan(start, Seq::<char>::empty()) == start);
}

/// Two slashes where instruction text may stand open a comment, and
/// leave the buffer and the finished lines as they are.
pub proof fn lemma_scan_comment_opens(start: Scan)
    requires
        start.state == AssemblerState::LookingForInstruction,
    ensures
        scan(start, seq!['/', '/']) == (Scan { state: AssemblerState::Comment, ..start }),
{
    assert(seq!['/', '/'].drop_last() =~= seq!['/']);
    lemma_scan_one(start, '/');
}

/// Inside a comment, text without a line break changes nothing.
pub proof fn lemma_scan_inside_comment(start: Scan, comment: Seq<char>)
    requires
        start.state == AssemblerState::Comment,
        !comment.contains('\n'),
    ensures
        scan(start, comment) == start,
    decreases comment.len(),
{
    if comment.len() > 0 {
        lemma_scan_inside_comment(start, comment.drop_last());
    }
}

/// A comment that opens where instruction text may stand, and runs to the
/// end of its line, leaves the tokenizer where the bare line break would.
pub proof fn lemma_scan_skips_comment(start: Scan, comment: Seq<char>)
    requires
        start.state == AssemblerState::LookingForInstruction,
        !comment.contains('\n'),
    ensures
        scan(start, seq!['/', '/'] + comment + seq!['\n']) == scan(start, seq!['\n']),
{
    let slashes = seq!['/', '/'];
    let opened = Scan { state: AssemblerState::Comment, ..start };
    lemma_scan_comment_opens(start);
    lemma_scan_inside_comment(opened, comment);
    lemma_scan_concat(start, slashes, comment);
    lemma_scan_concat(start, slashes + comment, seq!['\n']);
    lemma_scan_one(opened, '\n');
    lemma_scan_one(start, '\n');
}

/// A comment at the end of the source, with no line break after it, adds
/// no line and changes none.
pub proof fn lemma_scan_final_comment(start: Scan, comment: Seq<char>)
    requires
        start.state == AssemblerState::LookingForInstruction,
        !comment.contains('\n'),
    ensures
        scan(start, seq!['/', '/'] + comment).buffer == start.buffer,
        scan(start, seq!['/', '/'] + comment).lines == start.lines,
{
    let slashes = seq!['/', '/'];
    let opened = Scan { state: AssemblerState::Comment, ..start };
    lemma_scan_comment_opens(start);
    lemma_scan_inside_comment(opened, comment);
    lemma_scan_concat(start, slashes, comment);
}

/// Whether `line`, a line of the source without its line break, holds
/// nothing to encode: white space, and after it nothing more or a comment.
pub open spec fn is_empty_line(line: Seq<char>) -> bool {
    &&& !line.contains('\n')
    &&& exists|k: int|
        0 <= k <= line.len() && is_blank(#[trigger] line.take(k)) && (k == line.len() || (k + 1
            < line.len() && line[k] == '/' && line[k + 1] == '/'))
}

/// The text of some lines: a line break stands between each two of them,
/// and none after the last.
pub open spec fn join_lines(lines: Seq<Seq<char>>) -> Seq<char>
    decreases lines.len(),
{
    if lines.len() == 0 {
        Seq::empty()
    } else if lines.len() == 1 {
        lines[0]
    } else {
        join_lines(lines.drop_last()) + seq!['\n'] + lines.last()
    }
}

/// Whether the tokenizer has met nothing to encode so far: no `/` is held
/// back, and the buffer and the finished lines are blank.
pub open spec fn is_quiet(reached: Scan) -> bool {
    &&& reached.state != AssemblerState::OneSlash
    &&& is_blank(reached.buffer)
    &&& forall|i: int| 0 <= i < reached.lines.len() ==> is_blank(#[trigger] reached.lines[i])
}

/// White space without a line break is put into the buffer as it is.
pub proof fn lemma_scan_blank_text(start: Scan, blank: Seq<char>)
    requires
        start.state == AssemblerState::LookingForInstruction,
        is_blank(blank),
        !blank.contains('\n'),
    ensures
        scan(start, blank) == (Scan { buffer: start.buffer + blank, ..start }),
    decreases blank.len(),
{
    if blank.len() > 0 {
        let earlier = blank.drop_last();
        lemma_scan_blank_text(start, earlier);
        assert(earlier.push(blank.last()) =~= blank);
    }
}

/// A line with nothing to encode leaves a quiet tokenizer quiet.
pub proof fn lemma_scan_empty_line(start: Scan, line: Seq<char>)
    requires
        is_quiet(start),
        start.state == AssemblerState::LookingForInstruction,
        is_empty_line(line),
    ensures
        is_quiet(scan(start, line)),
        scan(start, line).lines == start.lines,
{
    let k = choose|k: int|
        0 <= k <= line.len() && is_blank(#[trigger] line.take(k)) && (k == line.len() || (k + 1
            < line.len() && line[k] == '/' && line[k + 1] == '/'));
    let blank = line.take(k);
    let rest = line.skip(k);
    assert(line =~= blank + rest);
    lemma_scan_blank_text(start, blank);
    lemma_scan_concat(start, blank, rest);
    let padded = Scan { buffer: start.buffer + blank, ..start };
    if k < line.len() {
        let comment = rest.skip(2);
        assert(rest =~= seq!['/', '/'] + comment);
        lemma_scan_final_comment(padded, comment);
        lemma_scan_comment_state(padded, comment);
    }
}

/// Inside a comment that no line break ends, the tokenizer stays in the
/// comment.
pub proof fn lemma_scan_comment_state(start: Scan, comment: Seq<char>)
    requires
        start.state == AssemblerState::LookingForInstruction,
        !comment.contains('\n'),
    ensures
        scan(start, seq!['/', '/'] + comment).state == AssemblerState::Comment,
{
    let slashes = seq!['/', '/'];
    let opened = Scan { state: AssemblerState::Comment, ..start };
    lemma_scan_comment_opens(start);
    lemma_scan_inside_comment(opened, comment);
    lemma_scan_concat(start, slashes, comment);
}

/// Lines with nothing to encode, joined by line breaks, leave the
/// tokenizer quiet.
pub proof fn lemma_scan_empty_lines(start: Scan, lines: Seq<Seq<char>>)
    requires
        is_quiet(start),
        start.state == AssemblerState::LookingForInstruction,
        forall|i: int| 0 <= i < lines.len() ==> is_empty_line(#[trigger] lines[i]),
    ensures
        is_quiet(scan(start, join_lines(lines))),
    decreases lines.len(),
{
    if lines.len() == 0 {
    } else if lines.len() == 1 {
        lemma_scan_empty_line(start, lines[0]);
    } else {
        let earlier = lines.drop_last();
        lemma_scan_empty_lines(start, earlier);
        let reached = scan(start, join_lines(earlier));
        let broken = scan(reached, seq!['\n']);
        lemma_scan_one(reached, '\n');
        lemma_scan_empty_line(broken, lines.last());
        lemma_scan_concat(start, join_lines(earlier), seq!['\n']);
        lemma_scan_concat(start, join_lines(earlier) + seq!['\n'], lines.last());
    }
}

/// Whether two tokenizers differ in white space alone, one of them having
/// read some more of it: `leading` at the start of the line in its buffer, or
/// `trailing` at its end, before a comment.
pub open spec fn scans_alike(
    leading: Seq<char>,
    trailing: Seq<char>,
    padded: Scan,
    plain: Scan,
) -> bool {
    &&& padded.state == plain.state
    &&& lines_alike(padded.lines, plain.lines)
    &&& (padded.buffer == plain.buffer || padded.buffer == leading + plain.buffer || (padded.state
        == AssemblerState::Comment && padded.buffer == plain.buffer + trailing))
}

/// Two tokenizers that differ in white space alone still do so after one
/// more character.
pub proof fn lemma_scan_char_keeps_alike(
    leading: Seq<char>,
    trailing: Seq<char>,
    padded: Scan,
    plain: Scan,
    c: char,
)
    requires
        is_blank(leading),
        is_blank(trailing),
        scans_alike(leading, trailing, padded, plain),
    ensures
        scans_alike(leading, trailing, scan_char(padded, c), scan_char(plain, c)),
{
    let none = Seq::<char>::empty();
    if ends_line(plain.state, c) {
        assert(trim(padded.buffer) == trim(plain.buffer)) by {
            if padded.buffer == leading + plain.buffer {
                lemma_trim_ignores_padding(leading, plain.buffer, none);
            } else if padded.buffer == plain.buffer + trailing {
                lemma_trim_ignores_padding(none, plain.buffer, trailing);
            }
        }
    }
}

/// Two tokenizers that differ in white space alone still do so after any
/// text.
pub proof fn lemma_scan_keeps_alike(
    leading: Seq<char>,
    trailing: Seq<char>,
    padded: Scan,
    plain: Scan,
    text: Seq<char>,
)
    requires
        is_blank(leading),
        is_blank(trailing),
        scans_alike(leading, trailing, padded, plain),
    ensures
        scans_alike(leading, trailing, scan(padded, text), scan(plain, text)),
    decreases text.len(),
{
    if text.len() > 0 {
        lemma_scan_keeps_alike(leading, trailing, padded, plain, text.drop_last());
        lemma_scan_char_keeps_alike(
            leading,
            trailing,
            scan(padded, text.drop_last()),
            scan(plain, text.drop_last()),
            text.last(),
        );
    }
}

/// Two tokenizers that differ in white space alone give lines that differ
/// in white space alone, the line in the buffer included.
pub proof fn lemma_alike_scans_give_alike_lines(
    leading: Seq<char>,
    trailing: Seq<char>,
    padded: Scan,
    plain: Scan,
)
    requires
        is_blank(leading),
        is_blank(trailing),
        scans_alike(leading, trailing, padded, plain),
    ensures
        lines_alike(padded.lines.push(padded.buffer), plain.lines.push(plain.buffer)),
{
    let none = Seq::<char>::empty();
    if padded.buffer == leading + plain.buffer {
        lemma_trim_ignores_padding(leading, plain.buffer, none);
    } else if padded.buffer == plain.buffer + trailing {
        lemma_trim_ignores_padding(none, plain.buffer, trailing);
    }
}

/// The lines that were finished before a text is read stay in front of
/// those that the text adds, and have no part in what it adds.
pub proof fn lemma_scan_appends_lines(start: Scan, text: Seq<char>)
    ensures
        ({
            let fresh = scan(Scan { lines: Seq::empty(), ..start }, text);
            scan(start, text) == (Scan { lines: start.lines + fresh.lines, ..fresh })
        }),
    decreases text.len(),
{
    if text.len() > 0 {
        lemma_scan_appends_lines(start, text.drop_last());
        let earlier = scan(Scan { lines: Seq::empty(), ..start }, text.drop_last());
        assert((start.lines + earlier.lines).push(earlier.buffer) =~= start.lines
            + earlier.lines.push(earlier.buffer));
    }
}

} // verus!
