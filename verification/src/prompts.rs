//! Reading the answers typed at interactive prompts.

use vstd::prelude::*;
use crate::text::{trim, trim_string, ascii_lowercase, ascii_lowercase_string, chars_of, same_text, to_owned_string, push_str, push_decimal, decimal};

verus! {

/// Why a yes/no answer was refused.
#[derive(Debug, PartialEq, Eq)]
pub enum AnswerError {
    /// The answer is neither yes, no, nor empty.
    NotYesOrNo,
}

/// How a yes/no prompt reads `answer`: `y`/`yes` and `n`/`no` in any ASCII case,
/// around whitespace; an empty answer takes the default.
pub open spec fn confirm_answer_of(answer: Seq<char>, default: bool) -> Result<bool, AnswerError> {
    let a = ascii_lowercase(trim(answer));
    if a == "y"@ || a == "yes"@ {
        Ok(true)
    } else if a == "n"@ || a == "no"@ {
        Ok(false)
    } else if a.len() == 0 {
        Ok(default)
    } else {
        Err(AnswerError::NotYesOrNo)
    }
}

/// The decision typed at a `[Y/n]` or `[y/N]` prompt.
pub fn confirm_answer(answer: &str, default: bool) -> (r: Result<bool, AnswerError>)
    ensures
        r == confirm_answer_of(answer@, default),
{
    let t = trim_string(answer);
    let a = ascii_lowercase_string(t.as_str());
    proof {
        reveal_strlit("y");
        reveal_strlit("yes");
        reveal_strlit("n");
        reveal_strlit("no");
    }
    if same_text(a.as_str(), "y") || same_text(a.as_str(), "yes") {
        Ok(true)
    } else if same_text(a.as_str(), "n") || same_text(a.as_str(), "no") {
        Ok(false)
    } else if a.as_str().unicode_len() == 0 {
        Ok(default)
    } else {
        Err(AnswerError::NotYesOrNo)
    }
}

/// Whether `c` is an ASCII decimal digit.
pub open spec fn is_digit(c: char) -> bool {
    '0' <= c && c <= '9'
}

/// The number written by the decimal digits `d`.
pub open spec fn digits_value(d: Seq<char>) -> nat
    decreases d.len(),
{
    if d.len() == 0 {
        0
    } else {
        digits_value(d.drop_last()) * 10 + ((d.last() as u32) - 48) as nat
    }
}

/// The digits part of a number: `s` without one leading `+`.
pub open spec fn unsigned_digits(s: Seq<char>) -> Seq<char> {
    if s.len() > 0 && s[0] == '+' {
        s.skip(1)
    } else {
        s
    }
}

/// Whether every character of `d` is a decimal digit.
pub open spec fn all_digits(d: Seq<char>) -> bool {
    forall|i: int| 0 <= i < d.len() ==> is_digit(#[trigger] d[i])
}

/// `str::parse::<usize>`: an optional `+`, then one or more ASCII digits whose
/// value fits in `usize`.
pub open spec fn parse_usize_of(s: Seq<char>) -> Option<usize> {
    let d = unsigned_digits(s);
    if d.len() > 0 && all_digits(d) && digits_value(d) <= usize::MAX {
        Some(digits_value(d) as usize)
    } else {
        None
    }
}

proof fn lemma_digits_grow(d: Seq<char>, i: int, j: int)
    requires
        0 <= i <= j <= d.len(),
        forall|k: int| 0 <= k < d.len() ==> is_digit(#[trigger] d[k]),
    ensures
        digits_value(d.take(i)) <= digits_value(d.take(j)),
    decreases j - i,
{
    if i < j {
        lemma_digits_grow(d, i, j - 1);
        assert(d.take(j).drop_last() =~= d.take(j - 1));
    }
}

/// Reads a `usize` as `str::parse` does.
pub fn parse_usize(s: &str) -> (r: Option<usize>)
    ensures
        r == parse_usize_of(s@),
{
    let v = chars_of(s);
    let start: usize = if v.len() > 0 && v[0] == '+' { 1 } else { 0 };
    let ghost d = unsigned_digits(s@);
    assert(d =~= v@.skip(start as int));
    if start >= v.len() {
        return None;
    }
    let mut acc: usize = 0;
    let mut i: usize = start;
    while i < v.len()
        invariant
            start <= i <= v@.len(),
            start < v@.len(),
            v@ == s@,
            d == unsigned_digits(s@),
            d == v@.skip(start as int),
            forall|k: int| start <= k < i ==> is_digit(#[trigger] v@[k]),
            acc as nat == digits_value(d.take(i - start)),
        decreases v.len() - i,
    {
        let c = v[i];
        if !('0' <= c && c <= '9') {
            proof {
                assert(d[i - start] == c);
                assert(!is_digit(d[i - start]));
                assert(!all_digits(d));
            }
            return None;
        }
        let digit = (c as u32 - 48) as usize;
        proof {
            assert(d.take(i - start + 1).drop_last() =~= d.take(i - start));
            assert(d.take(i - start + 1).last() == c);
        }
        let times = acc.checked_mul(10);
        let next = match times {
            Some(t) => t.checked_add(digit),
            None => None,
        };
        match next {
            Some(n) => {
                acc = n;
            },
            None => {
                proof {
                    assert(digits_value(d.take(i - start + 1)) == acc * 10 + digit);
                    assert(acc * 10 + digit > usize::MAX);
                    assert forall|k: int| 0 <= k < d.len() implies is_digit(#[trigger] d[k]) || k >= i - start + 1 by {
                        if k < i - start + 1 {
                            assert(d[k] == v@[start + k]);
                        }
                    }
                    if all_digits(d) {
                        lemma_digits_grow(d, i - start + 1, d.len() as int);
                        assert(d.take(d.len() as int) =~= d);
                        assert(digits_value(d) > usize::MAX);
                    }
                    assert(parse_usize_of(s@) is None);
                }
                return None;
            },
        }
        i = i + 1;
    }
    proof {
        assert(d.take(i - start) =~= d);
        assert forall|k: int| 0 <= k < d.len() implies is_digit(#[trigger] d[k]) by {
            assert(d[k] == v@[start + k]);
        }
    }
    Some(acc)
}

/// Why a candidate choice was refused.
#[derive(Debug, PartialEq, Eq)]
pub enum ChoiceError {
    /// The answer is not a number.
    NotANumber,
    /// No candidate has that number.
    OutOfRange,
}

/// The candidate picked by the answer to `Choose [1]:` — an empty answer picks
/// the first; a number `n` picks the `n`-th (0 also the first).
pub open spec fn choice_of(candidates: Seq<Seq<char>>, answer: Seq<char>) -> Result<Seq<char>, ChoiceError> {
    let t = trim(answer);
    let n: Option<usize> = if t.len() == 0 { Some(1usize) } else { parse_usize_of(t) };
    match n {
        None => Err(ChoiceError::NotANumber),
        Some(c) => {
            let i: int = if c == 0 { 0 } else { c - 1 };
            if i < candidates.len() {
                Ok(candidates[i])
            } else {
                Err(ChoiceError::OutOfRange)
            }
        },
    }
}

/// The texts of a list of strings.
pub open spec fn texts_view(v: Seq<String>) -> Seq<Seq<char>> {
    v.map_values(|s: String| s@)
}

/// The candidate the user picked.
pub fn choose_candidate(candidates: &Vec<String>, answer: &str) -> (r: Result<String, ChoiceError>)
    ensures
        match choice_of(texts_view(candidates@), answer@) {
            Ok(c) => r matches Ok(x) && x@ == c,
            Err(e) => r == Err::<String, ChoiceError>(e),
        },
{
    let t = trim_string(answer);
    let n = if t.as_str().unicode_len() == 0 { Some(1usize) } else { parse_usize(t.as_str()) };
    match n {
        None => Err(ChoiceError::NotANumber),
        Some(c) => {
            let i = c.saturating_sub(1);
            if i < candidates.len() {
                Ok(to_owned_string(candidates[i].as_str()))
            } else {
                Err(ChoiceError::OutOfRange)
            }
        },
    }
}

/// The numbered list of candidates shown before `Choose [1]:`.
pub open spec fn candidate_menu_of(candidates: Seq<Seq<char>>) -> Seq<char>
    decreases candidates.len(),
{
    if candidates.len() == 0 {
        Seq::empty()
    } else {
        candidate_menu_of(candidates.drop_last()) + "  "@ + decimal(candidates.len()) + ". "@ + candidates.last() + "\n"@
    }
}

pub fn candidate_menu(candidates: &Vec<String>) -> (r: String)
    requires
        candidates@.len() < u64::MAX,
    ensures
        r@ == candidate_menu_of(texts_view(candidates@)),
{
    let mut out = String::new();
    let mut i: usize = 0;
    while i < candidates.len()
        invariant
            i <= candidates@.len() < u64::MAX,
            out@ == candidate_menu_of(texts_view(candidates@).take(i as int)),
        decreases candidates.len() - i,
    {
        let mut line = to_owned_string("  ");
        push_decimal(&mut line, (i + 1) as u64);
        push_str(&mut line, ". ");
        push_str(&mut line, candidates[i].as_str());
        push_str(&mut line, "\n");
        proof {
            let s = texts_view(candidates@).take(i + 1);
            assert(s.drop_last() =~= texts_view(candidates@).take(i as int));
            assert(s.last() == candidates@[i as int]@);
            assert(s.len() == i + 1);
        }
        push_str(&mut out, line.as_str());
        i = i + 1;
    }
    assert(texts_view(candidates@).take(i as int) =~= texts_view(candidates@));
    out
}

/// Whether the typed confirmation of a domain move is `move DOMAIN`.
pub open spec fn move_confirmed_of(domain: Seq<char>, input: Seq<char>) -> bool {
    trim(input) == "move "@ + domain
}

pub fn move_confirmed(domain: &str, input: &str) -> (r: bool)
    ensures
        r == move_confirmed_of(domain@, input@),
{
    let t = trim_string(input);
    let mut expected = to_owned_string("move ");
    push_str(&mut expected, domain);
    same_text(t.as_str(), expected.as_str())
}

} // verus!
