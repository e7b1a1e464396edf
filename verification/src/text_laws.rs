//! What holds of the texts that players read and write.

use crate::night::two_numbers;
use crate::text::{
    decimal, digit_char, digits_value, is_digit, lossy_text, name_list, number, quotation, quotations,
    received_text, trim_end, trim_start, trimmed, unsigned_part, white_space, words,
};
use vstd::arithmetic::power::{lemma_pow0, lemma_pow1, lemma_pow_adds, pow};
use vstd::prelude::*;

verus! {

proof fn lemma_decimal_digits(n: nat)
    ensures
        decimal(n).len() > 0,
        forall|i: int| 0 <= i < decimal(n).len() ==> is_digit(#[trigger] decimal(n)[i]),
        digits_value(decimal(n)) == n,
    decreases n,
{
    assert(digit_char(n % 10) as nat == '0' as nat + n % 10);
    assert(decimal(n).last() == digit_char(n % 10));
    if n < 10 {
        assert(decimal(n).drop_last() =~= Seq::<char>::empty());
        assert(digits_value(decimal(n).drop_last()) == 0);
    } else {
        lemma_decimal_digits(n / 10);
        assert(decimal(n).drop_last() =~= decimal(n / 10));
    }
}

proof fn lemma_number(n: usize)
    ensures
        number(decimal(n as nat)) == Some(n),
        decimal(n as nat).len() > 0,
        forall|i: int|
            0 <= i < decimal(n as nat).len() ==> !white_space(#[trigger] decimal(n as nat)[i]),
{
    lemma_decimal_digits(n as nat);
    assert(unsigned_part(decimal(n as nat)) == decimal(n as nat));
}

proof fn lemma_nothing_to_trim(s: Seq<char>)
    requires
        s.len() > 0,
        !white_space(s.first()),
        !white_space(s.last()),
    ensures
        trimmed(s) == s,
{
}

/// A number that a `usize` can hold is read back as it was written, also with white
/// space around it.
pub proof fn law_written_numbers_are_read(n: usize, before: Seq<char>, behind: Seq<char>)
    requires
        forall|i: int| 0 <= i < before.len() ==> white_space(#[trigger] before[i]),
        forall|i: int| 0 <= i < behind.len() ==> white_space(#[trigger] behind[i]),
    ensures
        number(trimmed(before + decimal(n as nat) + behind)) == Some(n),
{
    let s = decimal(n as nat);
    lemma_number(n);
    lemma_trim_start(before, s + behind);
    assert(before + s + behind =~= before + (s + behind));
    assert(trim_start(s + behind) == s + behind);
    lemma_trim_end(s, behind);
}

proof fn lemma_trim_start(before: Seq<char>, s: Seq<char>)
    requires
        forall|i: int| 0 <= i < before.len() ==> white_space(#[trigger] before[i]),
    ensures
        trim_start(before + s) == trim_start(s),
    decreases before.len(),
{
    if before.len() > 0 {
        lemma_trim_start(before.drop_first(), s);
        assert((before + s).drop_first() =~= before.drop_first() + s);
    } else {
        assert(before + s =~= s);
    }
}

proof fn lemma_trim_end(s: Seq<char>, behind: Seq<char>)
    requires
        s.len() > 0,
        !white_space(s.last()),
        forall|i: int| 0 <= i < behind.len() ==> white_space(#[trigger] behind[i]),
    ensures
        trim_end(s + behind) == s,
    decreases behind.len(),
{
    if behind.len() > 0 {
        lemma_trim_end(s, behind.drop_last());
        assert((s + behind).drop_last() =~= s + behind.drop_last());
    } else {
        assert(s + behind =~= s);
    }
}

proof fn lemma_one_word(start: Seq<char>, word: Seq<char>)
    requires
        start.len() == 0 || white_space(start.last()),
        word.len() > 0,
        forall|i: int| 0 <= i < word.len() ==> !white_space(#[trigger] word[i]),
    ensures
        words(start + word) == words(start).push(word),
    decreases word.len(),
{
    let s = start + word;
    assert(s.drop_last() =~= start + word.drop_last());
    if word.len() == 1 {
        assert(s.drop_last() =~= start);
        assert(word =~= seq![s.last()]);
    } else {
        lemma_one_word(start, word.drop_last());
        assert(words(s.drop_last()).drop_last() =~= words(start));
        assert(word.drop_last().push(s.last()) =~= word);
    }
}

/// Two numbers that are written with a space between them are read back.
pub proof fn law_two_written_numbers_are_read(id1: usize, id2: usize)
    ensures
        two_numbers(decimal(id1 as nat) + seq![' '] + decimal(id2 as nat)) == Some((id1, id2)),
{
    let a = decimal(id1 as nat);
    let b = decimal(id2 as nat);
    let s = a + seq![' '] + b;
    lemma_number(id1);
    lemma_number(id2);
    lemma_nothing_to_trim(s);
    lemma_one_word(Seq::empty(), a);
    assert(Seq::<char>::empty() + a =~= a);
    let head = a + seq![' '];
    assert(head.drop_last() =~= a);
    lemma_one_word(head, b);
    assert(words(a) =~= seq![a]);
    assert(words(head) == words(a));
    assert(words(s) =~= seq![a, b]);
}

/// Words are never empty and hold no white space.
pub proof fn law_words_hold_no_white_space(s: Seq<char>)
    ensures
        forall|i: int|
            0 <= i < words(s).len() ==> {
                &&& (#[trigger] words(s)[i]).len() > 0
                &&& forall|j: int| 0 <= j < words(s)[i].len() ==> !white_space(words(s)[i][j])
            },
        s.len() > 0 && !white_space(s.last()) ==> words(s).len() > 0,
    decreases s.len(),
{
    if s.len() > 0 {
        let before = s.drop_last();
        law_words_hold_no_white_space(before);
        assert forall|i: int| 0 <= i < words(s).len() implies {
            &&& (#[trigger] words(s)[i]).len() > 0
            &&& forall|j: int| 0 <= j < words(s)[i].len() ==> !white_space(words(s)[i][j])
        } by {
            let k = words(before).len() as int;
            if i < words(s).len() - 1 || white_space(s.last()) {
                assert(words(s)[i] == words(before)[i]);
            } else if before.len() > 0 && !white_space(before.last()) {
                assert(words(s)[i] == words(before)[k - 1].push(s.last()));
            }
        }
    }
}

/// What a client sends as UTF-8 arrives as it was meant.
pub proof fn law_utf8_is_received(s: Seq<char>)
    ensures
        received_text(vstd::utf8::encode_utf8(s)) == s,
{
    vstd::utf8::encode_utf8_valid_utf8(s);
    vstd::utf8::encode_utf8_decode_utf8(s);
}

/// A digit shows its own value, and digits count by their place: those of `a` stand
/// for as many powers of ten more as there are digits in `b`.
pub proof fn law_digits_count_by_their_place(c: char, a: Seq<char>, b: Seq<char>)
    requires
        '0' <= c <= '9',
    ensures
        digits_value(seq![c]) == c as int - '0' as int,
        digits_value(a + b) == digits_value(a) * pow(10, b.len()) + digits_value(b),
    decreases b.len(),
{
    assert(seq![c].drop_last() =~= Seq::<char>::empty());
    assert(digits_value(seq![c].drop_last()) == 0);
    lemma_pow0(10);
    if b.len() == 0 {
        assert(a + b =~= a);
    } else {
        let short = b.drop_last();
        law_digits_count_by_their_place(c, a, short);
        assert((a + b).drop_last() =~= a + short);
        lemma_pow1(10);
        lemma_pow_adds(10, short.len(), 1);
        let x = digits_value(a) as int;
        let p = pow(10, short.len());
        assert(x * (p * 10) == (x * p) * 10) by (nonlinear_arith);
    }
}

/// A number is written in decimal digits that show it, without a zero in front but for
/// the number zero, which is one digit.
pub proof fn law_numbers_are_written_in_digits(n: nat)
    ensures
        decimal(n).len() > 0,
        forall|i: int| 0 <= i < decimal(n).len() ==> '0' <= #[trigger] decimal(n)[i] <= '9',
        digits_value(decimal(n)) == n,
        decimal(n)[0] == '0' ==> n == 0 && decimal(n).len() == 1,
    decreases n,
{
    lemma_decimal_digits(n);
    if n < 10 {
        assert(digit_char(n) as nat == '0' as nat + n);
    } else {
        law_numbers_are_written_in_digits(n / 10);
        assert(decimal(n)[0] == decimal(n / 10)[0]);
    }
}

/// What is read as a number: a row of decimal digits whose value a `usize` can hold,
/// also behind one plus sign, is read as that value. Nothing else is read as a number:
/// neither no digits, nor another character, nor too large a value.
pub proof fn law_only_digits_are_numbers(digits: Seq<char>)
    ensures
        ({
            let all_digits = forall|i: int|
                0 <= i < digits.len() ==> '0' <= #[trigger] digits[i] <= '9';
            let signed = seq!['+'] + digits;
            &&& digits.len() > 0 && all_digits && digits_value(digits) <= usize::MAX ==> {
                &&& number(digits) matches Some(n) && n == digits_value(digits)
                &&& number(signed) matches Some(n) && n == digits_value(digits)
            }
            &&& digits.len() == 0 || !all_digits || digits_value(digits) > usize::MAX ==> {
                &&& number(signed) is None
                &&& digits.len() == 0 || digits[0] != '+' ==> number(digits) is None
            }
        }),
{
    let signed = seq!['+'] + digits;
    assert(unsigned_part(signed) =~= digits);
    if digits.len() > 0 && digits[0] != '+' {
        assert(unsigned_part(digits) == digits);
    }
    let all_digits = forall|i: int| 0 <= i < digits.len() ==> '0' <= #[trigger] digits[i] <= '9';
    if all_digits {
        assert(forall|i: int| 0 <= i < digits.len() ==> is_digit(#[trigger] digits[i]));
        if digits.len() > 0 {
            assert('0' <= digits[0] <= '9');
        }
    } else {
        let i = choose|i: int| 0 <= i < digits.len() && !('0' <= #[trigger] digits[i] <= '9');
        assert(!is_digit(digits[i]));
    }
}

/// Trimming cuts off white space at both ends and nothing else: a text is what is left
/// with white space before and behind it, and what is left neither begins nor ends
/// with white space. Gives what was cut off.
pub proof fn law_trimming_cuts_off_white_space(s: Seq<char>) -> (res: (Seq<char>, Seq<char>))
    ensures
        s == res.0 + trimmed(s) + res.1,
        forall|i: int| 0 <= i < res.0.len() ==> white_space(#[trigger] res.0[i]),
        forall|i: int| 0 <= i < res.1.len() ==> white_space(#[trigger] res.1[i]),
        trimmed(s).len() > 0 ==> !white_space(trimmed(s).first()) && !white_space(
            trimmed(s).last(),
        ),
{
    let before = lemma_start(s);
    let rest = trim_start(s);
    let behind = lemma_end(rest);
    assert(s =~= before + trimmed(s) + behind);
    if trimmed(s).len() > 0 {
        assert(trimmed(s).first() == rest.first());
    }
    (before, behind)
}

proof fn lemma_start(s: Seq<char>) -> (before: Seq<char>)
    ensures
        s == before + trim_start(s),
        forall|i: int| 0 <= i < before.len() ==> white_space(#[trigger] before[i]),
        trim_start(s).len() > 0 ==> !white_space(trim_start(s).first()),
    decreases s.len(),
{
    if s.len() > 0 && white_space(s.first()) {
        let before = lemma_start(s.drop_first());
        let longer = seq![s.first()] + before;
        let rest = trim_start(s.drop_first());
        assert(s =~= seq![s.first()] + s.drop_first());
        assert(seq![s.first()] + (before + rest) =~= longer + rest);
        longer
    } else {
        assert(s =~= Seq::<char>::empty() + s);
        Seq::empty()
    }
}

proof fn lemma_end(s: Seq<char>) -> (behind: Seq<char>)
    ensures
        s == trim_end(s) + behind,
        forall|i: int| 0 <= i < behind.len() ==> white_space(#[trigger] behind[i]),
        trim_end(s).len() > 0 ==> !white_space(trim_end(s).last()),
    decreases s.len(),
{
    if s.len() > 0 && white_space(s.last()) {
        let behind = lemma_end(s.drop_last());
        let longer = behind.push(s.last());
        let rest = trim_end(s.drop_last());
        assert(s =~= s.drop_last().push(s.last()));
        assert((rest + behind).push(s.last()) =~= rest + longer);
        longer
    } else {
        assert(s =~= s + Seq::<char>::empty());
        Seq::empty()
    }
}

/// A stretch without white space is one word, and white space parts words: the words
/// of a text with white space somewhere in it are those before it and then those
/// behind it. There is no word in an empty text.
pub proof fn law_white_space_parts_words(word: Seq<char>, a: Seq<char>, c: char, b: Seq<char>)
    requires
        white_space(c),
    ensures
        words(Seq::empty()).len() == 0,
        word.len() > 0 && (forall|i: int| 0 <= i < word.len() ==> !white_space(#[trigger] word[i]))
            ==> words(word) == seq![word],
        words(a + seq![c] + b) == words(a) + words(b),
    decreases b.len(),
{
    if word.len() > 0 && (forall|i: int|
        0 <= i < word.len() ==> !white_space(#[trigger] word[i])) {
        lemma_one_word(Seq::empty(), word);
        assert(Seq::<char>::empty() + word =~= word);
        assert(words(word) =~= seq![word]);
    }
    let s = a + seq![c] + b;
    if b.len() == 0 {
        assert(s.drop_last() =~= a);
        assert(words(a) + words(b) =~= words(a));
    } else {
        let short = b.drop_last();
        let head = a + seq![c] + short;
        law_white_space_parts_words(word, a, c, short);
        assert(s.drop_last() =~= head);
        assert(s.last() == b.last());
        assert(head.last() == (if short.len() == 0 { c } else { short.last() }));
        if white_space(b.last()) {
        } else if short.len() == 0 || white_space(short.last()) {
            assert(words(s) =~= words(a) + words(b));
        } else {
            law_words_hold_no_white_space(short);
            assert(words(head).last() == words(short).last());
            assert(words(head).drop_last() =~= words(a) + words(short).drop_last());
            assert(words(s) =~= words(a) + words(b));
        }
    }
}

/// Cutting off the white space around a text leaves its words as they are.
pub proof fn law_trimming_keeps_words(s: Seq<char>)
    ensures
        words(trimmed(s)) == words(s),
{
    let (before, behind) = law_trimming_cuts_off_white_space(s);
    lemma_words_behind_space(before, trimmed(s));
    lemma_words_before_space(before + trimmed(s), behind);
}

proof fn lemma_words_behind_space(before: Seq<char>, s: Seq<char>)
    requires
        forall|i: int| 0 <= i < before.len() ==> white_space(#[trigger] before[i]),
    ensures
        words(before + s) == words(s),
    decreases before.len(),
{
    if before.len() == 0 {
        assert(before + s =~= s);
    } else {
        let short = before.drop_first();
        lemma_words_behind_space(short, s);
        law_white_space_parts_words(Seq::empty(), Seq::empty(), before[0], short + s);
        assert(before + s =~= Seq::<char>::empty() + seq![before[0]] + (short + s));
        assert(words(Seq::empty()) + words(short + s) =~= words(short + s));
    }
}

proof fn lemma_words_before_space(s: Seq<char>, behind: Seq<char>)
    requires
        forall|i: int| 0 <= i < behind.len() ==> white_space(#[trigger] behind[i]),
    ensures
        words(s + behind) == words(s),
    decreases behind.len(),
{
    if behind.len() == 0 {
        assert(s + behind =~= s);
    } else {
        lemma_words_before_space(s, behind.drop_last());
        assert((s + behind).drop_last() =~= s + behind.drop_last());
    }
}

/// A list of names stands in square brackets. Each name is quoted, and a comma and a
/// space part what comes before from what comes behind.
pub proof fn law_names_are_listed_in_brackets(name: Seq<char>, a: Seq<Seq<char>>, b: Seq<Seq<char>>)
    ensures
        name_list(a) == "["@ + quotations(a) + "]"@,
        quotations(Seq::empty()).len() == 0,
        quotations(seq![name]) == quotation(name),
        a.len() > 0 && b.len() > 0 ==> quotations(a + b) == quotations(a) + ", "@ + quotations(b),
    decreases b.len(),
{
    if a.len() > 0 && b.len() > 0 {
        let short = b.drop_last();
        assert((a + b).drop_last() =~= a + short);
        assert((a + b).last() == b.last());
        if short.len() == 0 {
            assert(a + short =~= a);
        } else {
            law_names_are_listed_in_brackets(name, a, short);
            assert(quotations(a + b) =~= quotations(a) + ", "@ + quotations(b));
        }
    }
}

/// What a client sends that is no UTF-8 arrives as the lossy reading of its bytes, and
/// UTF-8 as what it encodes.
pub proof fn law_bytes_are_read_lossily(bytes: Seq<u8>)
    ensures
        !vstd::utf8::valid_utf8(bytes) ==> received_text(bytes) == lossy_text(bytes),
        vstd::utf8::valid_utf8(bytes) ==> vstd::utf8::encode_utf8(received_text(bytes)) == bytes,
{
    if vstd::utf8::valid_utf8(bytes) {
        vstd::utf8::decode_utf8_encode_utf8(bytes);
    }
}

} // verus!
