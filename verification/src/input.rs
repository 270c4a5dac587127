//! Reading what the user typed: surrounding whitespace, task numbers, menu
//! choices and the confirmation word.

use vstd::prelude::*;
use crate::error::TaskError;

verus! {

/// What the user picked from the menu.
#[derive(Debug, Clone, Copy, PartialEq, Eq, Structural)]
pub enum MenuChoice {
    Add,
    List,
    Edit,
    Delete,
    Exit,
    /// Anything that is not one of the five keys.
    Invalid,
}

/// The characters that count as whitespace: those that Unicode marks as
/// `White_Space`.
pub open spec fn is_whitespace(c: char) -> bool {
    let n = c as u32;
    ||| 0x09 <= n <= 0x0D
    ||| n == 0x20
    ||| n == 0x85
    ||| n == 0xA0
    ||| n == 0x1680
    ||| 0x2000 <= n <= 0x200A
    ||| n == 0x2028
    ||| n == 0x2029
    ||| n == 0x202F
    ||| n == 0x205F
    ||| n == 0x3000
}

/// `s` without the whitespace at its two ends.
pub open spec fn trimmed(s: Seq<char>) -> Seq<char>
    decreases s.len(),
{
    if s.len() > 0 && is_whitespace(s.first()) {
        trimmed(s.drop_first())
    } else if s.len() > 0 && is_whitespace(s.last()) {
        trimmed(s.drop_last())
    } else {
        s
    }
}

/// The stretch of `s` from `i` up to `j` is what trimming leaves: only
/// whitespace stands in front of it and behind it, and it neither starts nor
/// ends with whitespace.
pub open spec fn trims_to(s: Seq<char>, i: int, j: int) -> bool {
    &&& 0 <= i <= j <= s.len()
    &&& forall|k: int| 0 <= k < i ==> is_whitespace(#[trigger] s[k])
    &&& forall|k: int| j <= k < s.len() ==> is_whitespace(#[trigger] s[k])
    &&& i < j ==> !is_whitespace(s[i]) && !is_whitespace(s[j - 1])
}

/// `trimmed(s)` is a stretch of `s` as `trims_to` describes it.
pub proof fn lemma_trimmed(s: Seq<char>)
    ensures
        exists|i: int, j: int| trims_to(s, i, j) && trimmed(s) == s.subrange(i, j),
    decreases s.len(),
{
    if s.len() > 0 && is_whitespace(s.first()) {
        let rest = s.drop_first();
        lemma_trimmed(rest);
        let (i, j) = choose|i: int, j: int| trims_to(rest, i, j) && trimmed(rest) == rest.subrange(i, j);
        assert forall|k: int| 0 <= k < i + 1 implies is_whitespace(#[trigger] s[k]) by {
            if k > 0 {
                assert(s[k] == rest[k - 1]);
            }
        }
        assert forall|k: int| j + 1 <= k < s.len() implies is_whitespace(#[trigger] s[k]) by {
            assert(s[k] == rest[k - 1]);
        }
        if i < j {
            assert(s[i + 1] == rest[i] && s[j] == rest[j - 1]);
        }
        assert(s.subrange(i + 1, j + 1) == rest.subrange(i, j));
        assert(trims_to(s, i + 1, j + 1));
    } else if s.len() > 0 && is_whitespace(s.last()) {
        let front = s.drop_last();
        lemma_trimmed(front);
        let (i, j) = choose|i: int, j: int| trims_to(front, i, j) && trimmed(front) == front.subrange(i, j);
        assert forall|k: int| 0 <= k < i implies is_whitespace(#[trigger] s[k]) by {
            assert(s[k] == front[k]);
        }
        assert forall|k: int| j <= k < s.len() implies is_whitespace(#[trigger] s[k]) by {
            if k < front.len() {
                assert(s[k] == front[k]);
            }
        }
        if i < j {
            assert(s[i] == front[i] && s[j - 1] == front[j - 1]);
        }
        assert(s.subrange(i, j) == front.subrange(i, j));
        assert(trims_to(s, i, j));
    } else {
        assert(s.subrange(0, s.len() as int) == s);
        assert(trims_to(s, 0, s.len() as int));
    }
}

/// One of the ten ASCII digits.
pub open spec fn is_digit(c: char) -> bool {
    '0' <= c <= '9'
}

/// The number that a sequence of ASCII digits writes in base ten.
pub open spec fn digits_value(s: Seq<char>) -> nat
    decreases s.len(),
{
    if s.len() == 0 {
        0
    } else {
        digits_value(s.drop_last()) * 10 + (s.last() as nat - '0' as nat) as nat
    }
}

/// Every character of `s` is an ASCII digit.
pub open spec fn all_digits(s: Seq<char>) -> bool {
    forall|i: int| 0 <= i < s.len() ==> is_digit(#[trigger] s[i])
}

/// `s` without the `+` that may stand at its start.
pub open spec fn unsigned_part(s: Seq<char>) -> Seq<char> {
    if s.len() > 0 && s.first() == '+' {
        s.drop_first()
    } else {
        s
    }
}

/// The unsigned 32-bit number that `s` writes: an optional `+`, then one or
/// more ASCII digits and nothing else, with a value that fits.
pub open spec fn decimal_u32(s: Seq<char>) -> Option<u32> {
    let digits = unsigned_part(s);
    if digits.len() > 0 && all_digits(digits) && digits_value(digits) <= u32::MAX {
        Some(digits_value(digits) as u32)
    } else {
        None
    }
}

/// The menu entry that a key selects.
pub open spec fn choice_of(key: Seq<char>) -> MenuChoice {
    if key == seq!['1'] {
        MenuChoice::Add
    } else if key == seq!['2'] {
        MenuChoice::List
    } else if key == seq!['3'] {
        MenuChoice::Edit
    } else if key == seq!['4'] {
        MenuChoice::Delete
    } else if key == seq!['5'] {
        MenuChoice::Exit
    } else {
        MenuChoice::Invalid
    }
}

/// The lower-case form of a text, as `str::to_lowercase` of std gives it.
pub uninterp spec fn lowercase(text: Seq<char>) -> Seq<char>;

/// The word that confirms.
pub open spec fn affirmative_token() -> Seq<char> {
    seq!['т', 'а', 'к']
}

/// What decides whether an entered text confirms, given the text and its
/// lower-case form: one of the two is the confirming word.
pub open spec fn confirms(entered: Seq<char>, lowered: Seq<char>) -> bool {
    entered == affirmative_token() || lowered == affirmative_token()
}

/// `s` is the confirming word, letter case aside.
pub open spec fn affirmative(s: Seq<char>) -> bool {
    confirms(s, lowercase(s))
}

/// `str::to_lowercase` of std: the lower-case form of the text, which
/// depends on the text alone. The contract gives it the name `lowercase` and
/// claims nothing more of it.
#[verifier::external_body]
fn to_lowercase(text: &str) -> (lowered: String)
    ensures
        lowered@ == lowercase(text@),
{
    text.to_lowercase()
}

/// Whether `text` is the confirming word as it stands.
fn is_token(text: &str) -> (yes: bool)
    ensures
        yes == (text@ == affirmative_token()),
{
    if text.unicode_len() != 3 {
        return false;
    }
    let yes = text.get_char(0) == 'т' && text.get_char(1) == 'а' && text.get_char(2) == 'к';
    assert(yes == (text@ =~= affirmative_token()));
    yes
}

/// Whether an entered text confirms, given the text and its lower-case form.
pub fn is_confirming(entered: &str, lowered: &str) -> (yes: bool)
    ensures
        yes == confirms(entered@, lowered@),
{
    is_token(entered) || is_token(lowered)
}

/// Whether `confirmation` is the confirming word, letter case aside.
pub fn is_affirmative(confirmation: &str) -> (yes: bool)
    ensures
        yes == affirmative(confirmation@),
{
    let lowered = to_lowercase(confirmation);
    is_confirming(confirmation, lowered.as_str())
}

/// `str::trim` of std: the part of `line` that is left when the whitespace
/// at its start and at its end is taken away, whitespace being the characters
/// that Unicode marks as `White_Space`.
#[verifier::external_body]
fn trim(line: &str) -> (text: &str)
    ensures
        text@ == trimmed(line@),
{
    line.trim()
}

/// `str::parse::<u32>` of std: the number that `text` writes in base ten,
/// or `None` where `text` is not an optional `+` followed by ASCII digits
/// only, or where the number does not fit in 32 bits.
#[verifier::external_body]
fn parse_u32(text: &str) -> (number: Option<u32>)
    ensures
        number == decimal_u32(text@),
{
    text.parse::<u32>().ok()
}

/// The line as the tracker takes it: without surrounding whitespace.
pub fn clean_line(line: &str) -> (text: String)
    ensures
        text@ == trimmed(line@),
{
    trim(line).to_owned()
}

/// Reads a task number from an entered line, surrounding whitespace aside.
pub fn parse_id(line: &str) -> (parsed: Result<u32, TaskError>)
    ensures
        parsed == match decimal_u32(trimmed(line@)) {
            Some(id) => Ok::<u32, TaskError>(id),
            None => Err::<u32, TaskError>(TaskError::ParseFailure),
        },
{
    match parse_u32(trim(line)) {
        Some(id) => Ok(id),
        None => Err(TaskError::ParseFailure),
    }
}

/// Reads a menu choice from an entered line, surrounding whitespace aside.
pub fn parse_choice(line: &str) -> (choice: MenuChoice)
    ensures
        choice == choice_of(trimmed(line@)),
{
    let key = trim(line);
    if key.unicode_len() != 1 {
        return MenuChoice::Invalid;
    }
    let c = key.get_char(0);
    assert(key@ == seq![c]);
    if c == '1' {
        MenuChoice::Add
    } else if c == '2' {
        MenuChoice::List
    } else if c == '3' {
        MenuChoice::Edit
    } else if c == '4' {
        MenuChoice::Delete
    } else if c == '5' {
        MenuChoice::Exit
    } else {
        MenuChoice::Invalid
    }
}

} // verus!
