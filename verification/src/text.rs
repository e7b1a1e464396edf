//! Numbers, words and quotations as they appear in the messages of the game.

use vstd::prelude::*;
use vstd::string::*;

verus! {

/// The decimal digit for `d`.
pub open spec fn digit_char(d: nat) -> char {
    ('0' as nat + d) as char
}

/// `n` in decimal, without leading zeros.
pub open spec fn decimal(n: nat) -> Seq<char>
    decreases n,
{
    if n < 10 {
        seq![digit_char(n)]
    } else {
        decimal(n / 10).push(digit_char(n % 10))
    }
}

/// The one-character string that shows the digit `d`.
fn digit_text(d: usize) -> (text: &'static str)
    requires
        d < 10,
    ensures
        text@ =~= seq![digit_char(d as nat)],
{
    proof {
        reveal_strlit("0");
        reveal_strlit("1");
        reveal_strlit("2");
        reveal_strlit("3");
        reveal_strlit("4");
        reveal_strlit("5");
        reveal_strlit("6");
        reveal_strlit("7");
        reveal_strlit("8");
        reveal_strlit("9");
    }
    match d {
        0 => "0",
        1 => "1",
        2 => "2",
        3 => "3",
        4 => "4",
        5 => "5",
        6 => "6",
        7 => "7",
        8 => "8",
        _ => "9",
    }
}

/// Writes `n` in decimal.
pub fn decimal_text(n: usize) -> (text: String)
    ensures
        text@ == decimal(n as nat),
    decreases n,
{
    if n < 10 {
        digit_text(n).to_owned()
    } else {
        let mut text = decimal_text(n / 10);
        text.append(digit_text(n % 10));
        text
    }
}

/// The characters of the Unicode property `White_Space`.
pub open spec fn white_space(c: char) -> bool {
    let u = c as u32;
    ||| 0x9 <= u <= 0xd
    ||| u == 0x20
    ||| u == 0x85
    ||| u == 0xa0
    ||| u == 0x1680
    ||| 0x2000 <= u <= 0x200a
    ||| u == 0x2028
    ||| u == 0x2029
    ||| u == 0x202f
    ||| u == 0x205f
    ||| u == 0x3000
}

/// Tests whether `c` is white space.
pub fn is_white_space(c: char) -> (res: bool)
    ensures
        res == white_space(c),
{
    let u = c as u32;
    (0x9 <= u && u <= 0xd) || u == 0x20 || u == 0x85 || u == 0xa0 || u == 0x1680 || (0x2000 <= u
        && u <= 0x200a) || u == 0x2028 || u == 0x2029 || u == 0x202f || u == 0x205f || u == 0x3000
}

/// `s` from its first character on that is no white space.
pub open spec fn trim_start(s: Seq<char>) -> Seq<char>
    decreases s.len(),
{
    if s.len() > 0 && white_space(s.first()) {
        trim_start(s.drop_first())
    } else {
        s
    }
}

/// `s` up to its last character that is no white space.
pub open spec fn trim_end(s: Seq<char>) -> Seq<char>
    decreases s.len(),
{
    if s.len() > 0 && white_space(s.last()) {
        trim_end(s.drop_last())
    } else {
        s
    }
}

/// `s` without the white space around it.
pub open spec fn trimmed(s: Seq<char>) -> Seq<char> {
    trim_end(trim_start(s))
}

/// Cuts off the white space around `s`.
pub fn trim(s: &str) -> (res: &str)
    ensures
        res@ == trimmed(s@),
{
    let n = s.unicode_len();
    let mut from: usize = 0;
    proof {
        assert(s@.skip(0) =~= s@);
    }
    while from < n && is_white_space(s.get_char(from))
        invariant
            n == s@.len(),
            from <= n,
            trim_start(s@) == trim_start(s@.skip(from as int)),
        decreases n - from,
    {
        proof {
            assert(s@.skip(from as int).drop_first() =~= s@.skip(from + 1));
        }
        from = from + 1;
    }
    let ghost body = s@.skip(from as int);
    let mut to: usize = n;
    proof {
        assert(s@.subrange(from as int, n as int) =~= body);
    }
    while from < to && is_white_space(s.get_char(to - 1))
        invariant
            n == s@.len(),
            from <= to <= n,
            trim_end(body) == trim_end(s@.subrange(from as int, to as int)),
        decreases to,
    {
        proof {
            assert(s@.subrange(from as int, to as int).drop_last() =~= s@.subrange(
                from as int,
                to - 1,
            ));
        }
        to = to - 1;
    }
    s.substring_char(from, to)
}

/// The words of `s`: its longest stretches without white space, in order. A
/// character begins a word at the start of `s` and after white space, and
/// carries the last word on otherwise.
pub open spec fn words(s: Seq<char>) -> Seq<Seq<char>>
    decreases s.len(),
{
    if s.len() == 0 {
        Seq::empty()
    } else {
        let before = s.drop_last();
        let c = s.last();
        if white_space(c) {
            words(before)
        } else if before.len() == 0 || white_space(before.last()) {
            words(before).push(seq![c])
        } else {
            words(before).drop_last().push(words(before).last().push(c))
        }
    }
}

/// What a sequence of strings says.
pub open spec fn texts(strings: Seq<String>) -> Seq<Seq<char>> {
    strings.map_values(|s: String| s@)
}

/// Splits `s` into its words.
pub fn split_words(s: &str) -> (res: Vec<String>)
    ensures
        texts(res@) == words(s@),
{
    let n = s.unicode_len();
    let mut res: Vec<String> = Vec::new();
    let mut i: usize = 0;
    let mut in_word: bool = false;
    let mut start: usize = 0;
    proof {
        assert(texts(res@) =~= words(s@.take(0)));
    }
    while i < n
        invariant
            n == s@.len(),
            i <= n,
            in_word == (i > 0 && !white_space(s@[i - 1])),
            in_word ==> start < i && words(s@.take(i as int)) == texts(res@).push(
                s@.subrange(start as int, i as int),
            ),
            !in_word ==> words(s@.take(i as int)) == texts(res@),
        decreases n - i,
    {
        let ghost before = s@.take(i as int);
        let c = s.get_char(i);
        proof {
            assert(s@.take(i + 1).drop_last() =~= before);
            assert(s@.take(i + 1).last() == c);
        }
        if is_white_space(c) {
            if in_word {
                let ghost old_res = res@;
                res.push(s.substring_char(start, i).to_owned());
                proof {
                    assert(texts(res@) =~= texts(old_res).push(s@.subrange(start as int, i as int)));
                }
                in_word = false;
            }
        } else if in_word {
            proof {
                let word = s@.subrange(start as int, i as int);
                assert(texts(res@).push(word).drop_last() =~= texts(res@));
                assert(word.push(c) =~= s@.subrange(start as int, i + 1));
            }
        } else {
            start = i;
            in_word = true;
            proof {
                assert(seq![c] =~= s@.subrange(start as int, i + 1));
            }
        }
        i = i + 1;
    }
    proof {
        assert(s@.take(n as int) =~= s@);
    }
    if in_word {
        let ghost old_res = res@;
        res.push(s.substring_char(start, n).to_owned());
        proof {
            assert(texts(res@) =~= texts(old_res).push(s@.subrange(start as int, n as int)));
        }
    }
    res
}

/// Tests for a decimal digit.
pub open spec fn is_digit(c: char) -> bool {
    '0' <= c <= '9'
}

/// The number that a row of decimal digits shows.
pub open spec fn digits_value(digits: Seq<char>) -> nat
    decreases digits.len(),
{
    if digits.len() == 0 {
        0
    } else {
        digits_value(digits.drop_last()) * 10 + (digits.last() as nat - '0' as nat) as nat
    }
}

/// `s` without a leading plus sign.
pub open spec fn unsigned_part(s: Seq<char>) -> Seq<char> {
    if s.len() > 0 && s.first() == '+' {
        s.drop_first()
    } else {
        s
    }
}

/// The number that `s` shows: at least one decimal digit and nothing else, but
/// for one leading plus sign, with a value that a `usize` can hold.
pub open spec fn number(s: Seq<char>) -> Option<usize> {
    let digits = unsigned_part(s);
    if digits.len() > 0 && (forall|i: int| 0 <= i < digits.len() ==> is_digit(#[trigger] digits[i]))
        && digits_value(digits) <= usize::MAX {
        Some(digits_value(digits) as usize)
    } else {
        None
    }
}

proof fn lemma_digits_value_grows(digits: Seq<char>, i: int)
    requires
        0 <= i <= digits.len(),
    ensures
        digits_value(digits.take(i)) <= digits_value(digits),
    decreases digits.len() - i,
{
    if i < digits.len() {
        assert(digits.take(i + 1).drop_last() =~= digits.take(i));
        lemma_digits_value_grows(digits, i + 1);
    } else {
        assert(digits.take(i) =~= digits);
    }
}

/// Reads the number that `s` shows.
pub fn parse_number(s: &str) -> (res: Option<usize>)
    ensures
        res == number(s@),
{
    let n = s.unicode_len();
    let mut i: usize = 0;
    if n > 0 && s.get_char(0) == '+' {
        i = 1;
    }
    let ghost first = i as int;
    let ghost digits = unsigned_part(s@);
    proof {
        assert(digits =~= s@.skip(first));
    }
    if i == n {
        return None;
    }
    let mut value: usize = 0;
    proof {
        assert(digits.take(0) =~= Seq::<char>::empty());
    }
    while i < n
        invariant
            n == s@.len(),
            0 <= first <= i <= n,
            digits == unsigned_part(s@),
            digits == s@.skip(first),
            digits.len() > 0,
            value == digits_value(digits.take(i - first)),
            forall|j: int| 0 <= j < i - first ==> is_digit(#[trigger] digits[j]),
        decreases n - i,
    {
        let c = s.get_char(i);
        assert(c == digits[i - first]);
        if !('0' <= c && c <= '9') {
            return None;
        }
        let d: usize = (c as u32 - '0' as u32) as usize;
        proof {
            assert(digits.take(i - first + 1).drop_last() =~= digits.take(i - first));
            lemma_digits_value_grows(digits, i - first + 1);
        }
        value = match value.checked_mul(10) {
            Some(tens) => match tens.checked_add(d) {
                Some(sum) => sum,
                None => {
                    return None;
                },
            },
            None => {
                return None;
            },
        };
        i = i + 1;
    }
    proof {
        assert(digits.take(n - first) =~= digits);
    }
    Some(value)
}

/// A string between double quotes, escaped as Rust's `Debug` form of a string.
pub uninterp spec fn quotation(s: Seq<char>) -> Seq<char>;

/// `format!("{:?}", s)` on a string. The result is a function of the string
/// alone; which characters the `Debug` form escapes, and how, is not stated.
#[verifier::external_body]
fn quote(s: &String) -> (res: String)
    ensures
        res@ == quotation(s@),
{
    format!("{:?}", s)
}

/// The quotations of `names`, each after the first behind a comma and a space.
pub open spec fn quotations(names: Seq<Seq<char>>) -> Seq<char>
    decreases names.len(),
{
    if names.len() == 0 {
        Seq::empty()
    } else if names.len() == 1 {
        quotation(names[0])
    } else {
        quotations(names.drop_last()) + ", "@ + quotation(names.last())
    }
}

/// A list of names in square brackets, each name quoted.
pub open spec fn name_list(names: Seq<Seq<char>>) -> Seq<char> {
    "["@ + quotations(names) + "]"@
}

/// Writes `names` as a list in square brackets, each name quoted.
pub fn list_names(names: &Vec<String>) -> (res: String)
    ensures
        res@ == name_list(texts(names@)),
{
    let mut res = "[".to_owned();
    let ghost all = texts(names@);
    let mut i: usize = 0;
    proof {
        assert(res@ =~= "["@ + quotations(all.take(0)));
    }
    while i < names.len()
        invariant
            i <= names@.len(),
            all == texts(names@),
            res@ == "["@ + quotations(all.take(i as int)),
        decreases names.len() - i,
    {
        let name = quote(&names[i]);
        let ghost before = res@;
        proof {
            assert(all.take(i + 1).drop_last() =~= all.take(i as int));
        }
        if i > 0 {
            res.append(", ");
        }
        res.append(name.as_str());
        proof {
            assert(res@ =~= "["@ + quotations(all.take(i + 1)));
        }
        i = i + 1;
    }
    proof {
        assert(all.take(names@.len() as int) =~= all);
    }
    res.append("]");
    res
}

/// The text that bytes show when what is no UTF-8 in them is replaced.
pub uninterp spec fn lossy_text(bytes: Seq<u8>) -> Seq<char>;

/// `String::from_utf8_lossy`. The result is a function of the bytes alone, and
/// valid UTF-8 is decoded as it stands; how much of an invalid sequence each
/// replacement character stands for is not stated.
#[verifier::external_body]
fn decode(bytes: &Vec<u8>) -> (res: String)
    ensures
        res@ == lossy_text(bytes@),
        vstd::utf8::valid_utf8(bytes@) ==> res@ == vstd::utf8::decode_utf8(bytes@),
{
    String::from_utf8_lossy(bytes).to_string()
}

/// The text that a client sent as `bytes`.
pub open spec fn received_text(bytes: Seq<u8>) -> Seq<char> {
    if vstd::utf8::valid_utf8(bytes) {
        vstd::utf8::decode_utf8(bytes)
    } else {
        lossy_text(bytes)
    }
}

/// Reads the text that a client sent as `bytes`.
pub fn receive_text(bytes: &Vec<u8>) -> (res: String)
    ensures
        res@ == received_text(bytes@),
{
    decode(bytes)
}

} // verus!
