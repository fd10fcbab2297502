//! How the broadcasts of the logging program write truth values and
//! frequencies, and what an empty text means in them.

use crate::text::same_text;
use vstd::prelude::*;
use vstd::string::*;

verus! {

/// The truth value that is written as a number: 0 is false and 1 is true.
/// Any other number is handed back as the error.
pub fn bool_from_int(value: u8) -> (r: Result<bool, u8>)
    ensures
        r == match value {
            0u8 => Ok::<bool, u8>(false),
            1u8 => Ok(true),
            other => Err(other),
        },
{
    match value {
        0 => Ok(false),
        1 => Ok(true),
        other => Err(other),
    }
}

/// The truth value that is written as a word: `False` or `True`, in just
/// this case. `None` for any other text.
pub fn bool_from_string(text: &str) -> (r: Option<bool>)
    ensures
        r == if text@ == "False"@ {
            Some(false)
        } else if text@ == "True"@ {
            Some(true)
        } else {
            None
        },
{
    if same_text(text, "False") {
        Some(false)
    } else if same_text(text, "True") {
        Some(true)
    } else {
        None
    }
}

/// A frequency in hertz, from one that is written in units of ten hertz.
pub fn hz_from_freq(freq: i64) -> (hz: i64)
    requires
        i64::MIN <= freq * 10 <= i64::MAX,
    ensures
        hz == freq * 10,
{
    freq * 10
}

/// A text that is there and not empty; an empty text counts as none.
pub fn empty_str_as_none<'a>(text: Option<&'a str>) -> (r: Option<&'a str>)
    ensures
        r == match text {
            Some(t) if t@.len() > 0 => Some(t),
            _ => None,
        },
{
    match text {
        Some(t) => if t.is_empty() {
            None
        } else {
            Some(t)
        },
        None => None,
    }
}

} // verus!
