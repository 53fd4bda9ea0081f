//! The text form of an assembled program: one line per word, sixteen
//! binary digits each, the most significant first.

use vstd::prelude::*;

verus! {

/// The character `'0'` or `'1'` for one bit of `word`. Position 0 is the
/// most significant bit, position 15 the least.
pub open spec fn bit_char(word: u16, position: int) -> char {
    if (word >> ((15 - position) as u16)) & 1u16 == 1u16 {
        '1'
    } else {
        '0'
    }
}

/// The line of one word: its sixteen binary digits and a line break.
pub open spec fn word_line(word: u16) -> Seq<char> {
    Seq::new(
        17,
        |i: int|
            if i < 16 {
                bit_char(word, i)
            } else {
                '\n'
            },
    )
}

/// The text of a sequence of words: their lines, one after another.
pub open spec fn listing(words: Seq<u16>) -> Seq<char>
    decreases words.len(),
{
    if words.len() == 0 {
        Seq::empty()
    } else {
        listing(words.drop_last()) + word_line(words.last())
    }
}

/// The number that a sequence of binary digits writes, the most
/// significant digit first. Any character but `'1'` counts as zero.
pub open spec fn binary_value(digits: Seq<char>) -> nat
    decreases digits.len(),
{
    if digits.len() == 0 {
        0
    } else {
        2 * binary_value(digits.drop_last()) + if digits.last() == '1' {
            1nat
        } else {
            0nat
        }
    }
}

/// A listing holds seventeen characters for each word, and the line of
/// the word at `index` stands at seventeen times `index`.
pub proof fn lemma_listing_layout(words: Seq<u16>, index: int)
    requires
        0 <= index < words.len(),
    ensures
        listing(words).len() == 17 * words.len(),
        listing(words).subrange(17 * index, 17 * index + 17) == word_line(words[index]),
    decreases words.len(),
{
    lemma_listing_length(words);
    if index < words.len() - 1 {
        lemma_listing_layout(words.drop_last(), index);
    }
}

/// A listing holds seventeen characters for each word.
pub proof fn lemma_listing_length(words: Seq<u16>)
    ensures
        listing(words).len() == 17 * words.len(),
    decreases words.len(),
{
    if words.len() > 0 {
        lemma_listing_length(words.drop_last());
    }
}

/// One more digit doubles the number read so far and adds the digit.
proof fn lemma_next_bit(word: u16, k: u16)
    by (bit_vector)
    requires
        k < 16,
    ensures
        (word as u32) >> ((15 - k) as u32) == 2 * ((word as u32) >> ((16 - k) as u32)) + (((word
            >> ((15 - k) as u16)) & 1u16) as u32),
        ((word >> ((15 - k) as u16)) & 1u16) == 0u16 || ((word >> ((15 - k) as u16)) & 1u16)
            == 1u16,
{
}

/// The first `k` digits of a word's line write the number that its `k`
/// highest bits make.
proof fn lemma_digits_value(word: u16, k: int)
    requires
        0 <= k <= 16,
    ensures
        binary_value(word_line(word).take(k)) == (word as u32) >> ((16 - k) as u32),
    decreases k,
{
    if k == 0 {
        assert((word as u32) >> 16u32 == 0u32) by (bit_vector);
    } else {
        lemma_digits_value(word, k - 1);
        lemma_next_bit(word, (k - 1) as u16);
        assert(word_line(word).take(k).drop_last() =~= word_line(word).take(k - 1));
    }
}

/// The sixteen digits of a word's line, read as a binary numeral, give the
/// word back.
pub proof fn lemma_word_line_value(word: u16)
    ensures
        word_line(word).len() == 17,
        word_line(word)[16] == '\n',
        forall|i: int| 0 <= i < 16 ==> word_line(word)[i] == '0' || word_line(word)[i] == '1',
        binary_value(word_line(word).take(16)) == word,
{
    lemma_digits_value(word, 16);
    assert((word as u32) >> 0u32 == word) by (bit_vector);
}

/// Appends the line of `word` to `text`.
pub fn write_word(text: &mut String, word: u16)
    ensures
        final(text)@ == old(text)@ + word_line(word),
{
    let mut position: u16 = 0;
    while position < 16
        invariant
            position <= 16,
            text@.len() == old(text)@.len() + position,
            text@ == old(text)@ + word_line(word).take(position as int),
        decreases 16 - position,
    {
        let bit: u16 = (word >> (15 - position)) & 1;
        let digit = if bit == 1 {
            '1'
        } else {
            '0'
        };
        text.push(digit);
        position += 1;
    }
    text.push('\n');
}

/// The text of `instructions`: one line of sixteen binary digits for each
/// word, in order.
pub fn render_listing(instructions: &[u16]) -> (text: String)
    ensures
        text@ == listing(instructions@),
{
    let mut text = String::new();
    let mut i: usize = 0;
    while i < instructions.len()
        invariant
            i <= instructions.len(),
            text@ == listing(instructions@.take(i as int)),
        decreases instructions.len() - i,
    {
        write_word(&mut text, instructions[i]);
        assert(instructions@.take(i + 1).drop_last() =~= instructions@.take(i as int));
        i += 1;
    }
    assert(instructions@.take(i as int) =~= instructions@);
    text
}

} // verus!
