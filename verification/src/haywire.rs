//! Detection of output that degenerates into one character repeated over and over.
use vstd::prelude::*;

verus! {

/// The `count` characters of `text` from `start` on are all the same.
pub open spec fn is_run(text: Seq<char>, start: int, count: int) -> bool {
    &&& 0 <= start
    &&& start + count <= text.len()
    &&& forall|k: int| start <= k < start + count ==> text[k] == text[start]
}

/// How many equal characters in a row make a text haywire: the configured number,
/// but at least two, since a single character repeats nothing.
pub open spec fn run_limit(char_repeats: nat) -> nat {
    if char_repeats < 2 {
        2
    } else {
        char_repeats
    }
}

/// `text` holds a run of equal characters that reaches the limit.
pub open spec fn is_haywire(text: Seq<char>, char_repeats: nat) -> bool {
    exists|start: int| is_run(text, start, run_limit(char_repeats) as int)
}

/// Flags text in which one character is repeated `char_repeats` times in a row.
pub struct HaywireDetector {
    pub char_repeats: usize,
}

impl HaywireDetector {
    pub fn new(char_repeats: usize) -> (detector: Self)
        ensures
            detector.char_repeats == char_repeats,
    {
        Self { char_repeats }
    }

    /// Whether the accumulated `text` shows haywire behaviour: a repeated character,
    /// such as "//////////////".
    pub fn check_haywire(&self, text: &str) -> (haywire: bool)
        ensures
            haywire == is_haywire(text@, self.char_repeats as nat),
    {
        if text.as_bytes().len() < self.char_repeats {
            proof {
                crate::text::lemma_byte_len_at_least_char_len(text@);
            }
            return false;
        }
        let mut count: usize = 1;
        let chars = crate::text::chars_of(text);
        let mut i: usize = 1;
        while i < chars.len()
            invariant
                1 <= i,
                i <= chars@.len() || chars@.len() == 0,
                chars@ == text@,
                1 <= count <= i,
                count < run_limit(self.char_repeats as nat),
                chars@.len() > 0 ==> is_run(chars@, i - count, count as int),
                count < i && chars@.len() > 0 ==> chars@[i - count - 1] != chars@[i - count],
                forall|start: int|
                    start + run_limit(self.char_repeats as nat) <= i ==> !is_run(
                        chars@,
                        start,
                        run_limit(self.char_repeats as nat) as int,
                    ),
            decreases chars.len() - i,
        {
            let ghost limit = run_limit(self.char_repeats as nat) as int;
            if chars[i - 1] == chars[i] {
                count += 1;
                if count >= self.char_repeats {
                    assert(is_run(text@, i + 1 - count, limit));
                    return true;
                }
            } else {
                count = 1;
            }
            i += 1;
        }
        false
    }
}

/// Text that is haywire stays haywire whatever comes before or after it.
pub proof fn law_haywire_survives_more_text(
    before: Seq<char>,
    text: Seq<char>,
    after: Seq<char>,
    char_repeats: nat,
)
    requires
        is_haywire(text, char_repeats),
    ensures
        is_haywire(before + text + after, char_repeats),
{
    let limit = run_limit(char_repeats) as int;
    let start = choose|start: int| is_run(text, start, limit);
    let whole = before + text + after;
    assert forall|k: int| before.len() + start <= k < before.len() + start + limit implies #[trigger] whole[k]
        == whole[before.len() + start] by {
        assert(whole[k] == text[k - before.len()]);
        assert(whole[before.len() + start] == text[start]);
    }
    assert(is_run(whole, before.len() + start, limit));
}

/// A detector that asks for fewer repeats flags everything that a stricter one flags.
pub proof fn law_fewer_repeats_flag_more(text: Seq<char>, fewer: nat, more: nat)
    requires
        fewer <= more,
        is_haywire(text, more),
    ensures
        is_haywire(text, fewer),
{
    let start = choose|start: int| is_run(text, start, run_limit(more) as int);
    assert(is_run(text, start, run_limit(fewer) as int));
}

/// Text with fewer characters than the configured number is never haywire, nor is a
/// text of fewer than two characters.
pub proof fn law_short_text_is_calm(text: Seq<char>, char_repeats: nat)
    requires
        text.len() < char_repeats || text.len() < 2,
    ensures
        !is_haywire(text, char_repeats),
{
}

/// Text in which no two neighbouring characters are equal is never haywire.
pub proof fn law_varied_text_is_calm(text: Seq<char>, char_repeats: nat)
    requires
        forall|k: int| 0 <= k < text.len() - 1 ==> #[trigger] text[k] != text[k + 1],
    ensures
        !is_haywire(text, char_repeats),
{
    assert forall|start: int| !is_run(text, start, run_limit(char_repeats) as int) by {
        if is_run(text, start, run_limit(char_repeats) as int) {
            assert(text[start + 1] == text[start]);
        }
    }
}

/// A run of the same character, whichever it is, is flagged if it is as long as the
/// configured number and not of one character alone.
pub proof fn law_run_is_flagged(text: Seq<char>, char_repeats: nat, start: int, count: int)
    requires
        char_repeats <= count,
        2 <= count,
        0 <= start,
        start + count <= text.len(),
        forall|k: int| start <= k < start + count ==> text[k] == text[start],
    ensures
        is_haywire(text, char_repeats),
{
    assert(is_run(text, start, run_limit(char_repeats) as int));
}

/// Flagged text has a character that is followed by itself, and stands as often in a row as
/// the configured number.
pub proof fn law_flag_shows_a_run(text: Seq<char>, char_repeats: nat) -> (start: int)
    requires
        is_haywire(text, char_repeats),
    ensures
        0 <= start,
        start + 2 <= text.len(),
        start + char_repeats <= text.len(),
        text[start] == text[start + 1],
        forall|k: int| start <= k < start + char_repeats ==> text[k] == text[start],
{
    choose|start: int| is_run(text, start, run_limit(char_repeats) as int)
}

} // verus!
