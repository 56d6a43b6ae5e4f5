//! Reading a yes/no answer.
use vstd::prelude::*;

use crate::text::{chars_of, concat, same_chars, string_of, trim, trim_str};

verus! {

/// `str::to_lowercase` of a text: its lower-case form by Unicode's rules.
pub uninterp spec fn lowercase(s: Seq<char>) -> Seq<char>;

/// `str::to_lowercase`: the text in lower case (Unicode's mapping, which
/// is not spelled out here).
#[verifier::external_body]
fn to_lowercase(s: &str) -> (lower: String)
    ensures
        lower@ == lowercase(s@),
{
    s.to_lowercase()
}

/// The hint after a question: the capital letter marks the default.
pub fn confirm_suffix(default_yes: bool) -> (s: String)
    ensures
        s@ == if default_yes {
            "[Y/n]"@
        } else {
            "[y/N]"@
        },
{
    if default_yes {
        "[Y/n]".to_string()
    } else {
        "[y/N]".to_string()
    }
}

/// The meaning of a trimmed, lower-cased reply: nothing takes the
/// default, `y`/`yes` and `n`/`no` answer; anything else is refused.
pub open spec fn meaning(lowered: Seq<char>, default_yes: bool) -> Result<bool, Seq<char>> {
    if lowered.len() == 0 {
        Ok(default_yes)
    } else if lowered == "y"@ || lowered == "yes"@ {
        Ok(true)
    } else if lowered == "n"@ || lowered == "no"@ {
        Ok(false)
    } else {
        Err(lowered)
    }
}

/// The answer a trimmed, lower-cased reply gives; the reply itself when it
/// is no answer.
pub fn answer(lowered: &str, default_yes: bool) -> (r: Result<bool, String>)
    ensures
        match (r, meaning(lowered@, default_yes)) {
            (Ok(a), Ok(b)) => a == b,
            (Err(e), Err(f)) => e@ == f,
            _ => false,
        },
{
    let l = chars_of(lowered);
    if l.len() == 0 {
        Ok(default_yes)
    } else if same_chars(&l, &chars_of("y")) || same_chars(&l, &chars_of("yes")) {
        Ok(true)
    } else if same_chars(&l, &chars_of("n")) || same_chars(&l, &chars_of("no")) {
        Ok(false)
    } else {
        Err(string_of(&l))
    }
}

/// The answer a line typed at a yes/no question gives; a reply that is no
/// answer is refused with `invalid input: <reply>`, the reply trimmed and
/// lower-cased.
pub fn confirm(input: &str, default_yes: bool) -> (r: Result<bool, String>)
    ensures
        match (r, meaning(lowercase(trim(input@)), default_yes)) {
            (Ok(a), Ok(b)) => a == b,
            (Err(e), Err(f)) => e@ == "invalid input: "@ + f,
            _ => false,
        },
{
    let trimmed = string_of(&trim_str(input));
    let lowered = to_lowercase(trimmed.as_str());
    match answer(lowered.as_str(), default_yes) {
        Ok(a) => Ok(a),
        Err(reply) => Err(string_of(&concat(&chars_of("invalid input: "), &chars_of(reply.as_str())))),
    }
}

} // verus!
