//! Strings as sequences of characters: copying, searching, decimal numerals.
use vstd::arithmetic::div_mod::lemma_div_denominator;
use vstd::arithmetic::power::{lemma_pow0, lemma_pow1, lemma_pow_positive, pow};
use vstd::prelude::*;

verus! {

/// Copies the characters of `text` into a vector.
pub fn chars_of(text: &str) -> (out: Vec<char>)
    ensures
        out@ == text@,
{
    let mut out: Vec<char> = Vec::new();
    for c in it: text.chars()
        invariant
            it.seq() == text@,
            out@ == text@.take(it.index()),
    {
        out.push(c);
    }
    assert(text@.take(text@.len() as int) == text@);
    out
}

/// The decimal digit with the value `digit`.
pub open spec fn digit_char(digit: nat) -> char {
    (48 + digit) as char
}

/// `number` written in decimal, without leading zeros.
pub open spec fn decimal(number: nat) -> Seq<char>
    decreases number,
{
    if number < 10 {
        seq![digit_char(number)]
    } else {
        decimal(number / 10).push(digit_char(number % 10))
    }
}

/// The numeral of a single decimal digit.
fn digit(value: u16) -> (numeral: &'static str)
    requires
        value < 10,
    ensures
        numeral@ == seq![digit_char(value as nat)],
{
    proof {
        reveal_strlit("0");
        reveal_strlit("1");
        reveal_strlit("2");
        reveal_strlit("3");
        reveal_strlit("4");
        reveal_strlit("5");
        reveal_strlit("6");
        reveal_strlit("7");
        reveal_strlit("8");
        reveal_strlit("9");
    }
    match value {
        0 => "0",
        1 => "1",
        2 => "2",
        3 => "3",
        4 => "4",
        5 => "5",
        6 => "6",
        7 => "7",
        8 => "8",
        _ => "9",
    }
}

/// The decimal numeral of `number`.
pub fn decimal_of(number: u16) -> (out: String)
    ensures
        out@ == decimal(number as nat),
    decreases number,
{
    if number < 10 {
        digit(number).to_string()
    } else {
        let mut out = decimal_of(number / 10);
        out.append(digit(number % 10));
        out
    }
}

/// `needle` stands somewhere in `text`.
pub open spec fn holds(text: Seq<char>, needle: Seq<char>) -> bool {
    exists|at: int| stands_at(text, needle, at)
}

/// `needle` stands in `text`, from the position `at` on.
pub open spec fn stands_at(text: Seq<char>, needle: Seq<char>, at: int) -> bool {
    &&& 0 <= at
    &&& at + needle.len() <= text.len()
    &&& text.subrange(at, at + needle.len()) == needle
}

/// Whether `needle` stands in `text`, from the position `at` on.
fn stands_at_exec(text: &Vec<char>, needle: &Vec<char>, at: usize) -> (found: bool)
    requires
        at <= text@.len(),
    ensures
        found == stands_at(text@, needle@, at as int),
{
    if needle.len() > text.len() - at {
        return false;
    }
    let mut i: usize = 0;
    while i < needle.len()
        invariant
            i <= needle@.len(),
            at + needle.len() <= text.len(),
            forall|k: int| 0 <= k < i ==> text@[at + k] == needle@[k],
        decreases needle.len() - i,
    {
        if text[at + i] != needle[i] {
            assert(text@.subrange(at as int, at + needle@.len())[i as int] != needle@[i as int]);
            return false;
        }
        i += 1;
    }
    assert(text@.subrange(at as int, at + needle@.len()) == needle@);
    true
}

/// Whether `needle` stands somewhere in `text`.
pub fn contains(text: &str, needle: &str) -> (found: bool)
    ensures
        found == holds(text@, needle@),
{
    let text_chars = chars_of(text);
    let needle_chars = chars_of(needle);
    let mut at: usize = 0;
    loop
        invariant
            at <= text_chars@.len(),
            text_chars@ == text@,
            needle_chars@ == needle@,
            forall|k: int| 0 <= k < at ==> !stands_at(text@, needle@, k),
        decreases text_chars.len() - at,
    {
        if stands_at_exec(&text_chars, &needle_chars, at) {
            return true;
        }
        if at == text_chars.len() {
            return false;
        }
        at += 1;
    }
}

/// A text never has fewer bytes than characters.
pub proof fn lemma_byte_len_at_least_char_len(chars: Seq<char>)
    ensures
        vstd::utf8::encode_utf8(chars).len() >= chars.len(),
    decreases chars.len(),
{
    if chars.len() > 0 {
        lemma_byte_len_at_least_char_len(chars.drop_first());
    }
}

/// A text holds what stands between any two parts of it.
pub proof fn law_middle_is_held(before: Seq<char>, needle: Seq<char>, after: Seq<char>)
    ensures
        holds(before + needle + after, needle),
{
    let text = before + needle + after;
    let at = before.len() as int;
    assert(text.subrange(at, at + needle.len()) == needle);
    assert(stands_at(text, needle, at));
}

/// What a text holds parts it in two: what comes before and what comes after.
pub proof fn law_held_text_parts_the_rest(text: Seq<char>, needle: Seq<char>) -> (parts: (
    Seq<char>,
    Seq<char>,
))
    requires
        holds(text, needle),
    ensures
        text == parts.0 + needle + parts.1,
{
    let at = choose|at: int| stands_at(text, needle, at);
    let parts = (text.take(at), text.skip(at + needle.len()));
    let middle = text.subrange(at, at + needle.len());
    assert(text == parts.0 + middle + parts.1);
    parts
}

/// A numeral has as many digits as the number needs, and each has the value of its place:
/// the one at distance `place` from the last counts the powers of ten.
pub proof fn law_digits_have_their_place_values(number: nat, place: nat)
    ensures
        decimal(number).len() > 0,
        number < pow(10, decimal(number).len()),
        decimal(number).len() > 1 ==> pow(10, (decimal(number).len() - 1) as nat) <= number,
        place < decimal(number).len() ==> decimal(number)[decimal(number).len() - 1 - place] as int
            == 48 + (number as int / pow(10, place)) % 10,
    decreases number,
{
    lemma_pow0(10);
    lemma_pow1(10);
    if number >= 10 {
        let shorter = number / 10;
        let digits = decimal(shorter).len();
        law_digits_have_their_place_values(shorter, if place > 0 {
            (place - 1) as nat
        } else {
            0
        });
        vstd::arithmetic::power::lemma_pow_adds(10, 1, digits);
        vstd::arithmetic::power::lemma_pow_adds(10, 1, (digits - 1) as nat);
        if place > 0 {
            let below = (place - 1) as nat;
            vstd::arithmetic::power::lemma_pow_adds(10, 1, below);
            lemma_pow_positive(10, below);
            lemma_div_denominator(number as int, 10, pow(10, below));
        }
    }
}

} // verus!
