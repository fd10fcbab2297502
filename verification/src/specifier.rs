//! The tag that announces a field, `<name:length>` or `<name:length:type>`,
//! and the tag that ends a record, `<eor>` in any mix of upper and lower
//! case.

use crate::error::Error;
use crate::number::{integer_within, parse_usize};
use crate::text::{
    equals_folded, find, find_from, lemma_ascii_is_boundary, lemma_chars_of, lemma_find_from,
    lowered, substring, COLON, GREATER_THAN, LESS_THAN,
};
use vstd::prelude::*;
use vstd::string::*;
use vstd::utf8::*;

verus! {

/// Text was left, and it does not start with `<`.
pub const NO_START: &'static str = "could not find start of data specifier";

/// No `>` follows the `<`.
pub const NO_END: &'static str = "while looking for the end of data specifier";

/// The tag holds no `:` and is not the end of a record.
pub const NO_COLON: &'static str = "no colon in data specifier";

/// More than one character stands after the second `:`.
pub const BAD_TYPE: &'static str = "invalid type specifier";

/// What stands for the length is no number that a length can be.
pub const BAD_LENGTH: &'static str = "could not parse length from data specifier";

/// What a tag says of the field that follows it.
pub struct Specifier {
    /// The name as it is written, before any case folding.
    pub name: Seq<u8>,
    /// How many bytes the value has.
    pub length: usize,
    /// The type code, if the tag has one.
    pub kind: Option<char>,
}

/// The type code that the `text` after a second `:` gives: none for an
/// empty text, the character of a text of one character, and an error for a
/// longer one.
pub open spec fn kind_of(text: Seq<u8>) -> Result<Option<char>, Error> {
    let code = decode_utf8(text);
    if code.len() > 1 {
        Err(Error::OtherError(BAD_TYPE))
    } else if code.len() == 1 {
        Ok(Some(code[0]))
    } else {
        Ok(None)
    }
}

/// What the text between `<` and `>` means: `Ok(None)` for the end of a
/// record, a specifier for a field, or the error that it earns.
///
/// The name ends at the first `:`. What follows is the length, up to a
/// second `:` if there is one, and after that the type code. A bad type code
/// is found before a bad length.
pub open spec fn specifier_of(body: Seq<u8>) -> Result<Option<Specifier>, Error> {
    let colon = find_from(body, COLON, 0);
    if colon == body.len() {
        if lowered(body) == "eor".spec_bytes() {
            Ok(None)
        } else {
            Err(Error::OtherError(NO_COLON))
        }
    } else {
        let tail = body.subrange(colon + 1, body.len() as int);
        let second = find_from(tail, COLON, 0);
        let code = if second == tail.len() {
            Seq::empty()
        } else {
            tail.subrange(second + 1, tail.len() as int)
        };
        match kind_of(code) {
            Err(e) => Err(e),
            Ok(kind) => match integer_within(tail.subrange(0, second), false, 0, usize::MAX as int) {
                None => Err(Error::OtherError(BAD_LENGTH)),
                Some(n) => Ok(
                    Some(Specifier { name: body.subrange(0, colon), length: n as usize, kind }),
                ),
            },
        }
    }
}

/// What reading a key finds at the start of `text`, from which leading white
/// space has been removed already: the meaning of the first tag and how many
/// bytes the tag takes, or an error. Empty text is `NoData`.
pub open spec fn key_read(text: Seq<u8>) -> Result<(Option<Specifier>, int), Error> {
    if text.len() == 0 {
        Err(Error::NoData)
    } else if text[0] != LESS_THAN {
        Err(Error::OtherError(NO_START))
    } else {
        let end = find_from(text, GREATER_THAN, 1);
        if end == text.len() {
            Err(Error::UnexpectedEndOfInput(NO_END))
        } else {
            match specifier_of(text.subrange(1, end)) {
                Err(e) => Err(e),
                Ok(found) => Ok((found, end + 1)),
            }
        }
    }
}

/// A tag that was read, its name still a part of the input.
pub struct Tag<'a> {
    pub name: &'a str,
    pub length: usize,
    pub kind: Option<char>,
}

impl<'a> View for Tag<'a> {
    type V = Specifier;

    open spec fn view(&self) -> Specifier {
        Specifier { name: self.name.spec_bytes(), length: self.length, kind: self.kind }
    }
}

/// Whether what was read is what the grammar gives.
pub open spec fn same_tag(read: Option<Tag<'_>>, given: Option<Specifier>) -> bool {
    match (read, given) {
        (None, None) => true,
        (Some(tag), Some(specifier)) => tag@ == specifier,
        _ => false,
    }
}

/// Reads the type code that stands after a second `:`.
pub fn read_kind(code: &str) -> (r: Result<Option<char>, Error>)
    ensures
        r == kind_of(code.spec_bytes()),
{
    proof {
        lemma_chars_of(code);
    }
    let n: usize = code.unicode_len();
    if n > 1 {
        Err(Error::OtherError(BAD_TYPE))
    } else if n == 1 {
        Ok(Some(code.get_char(0)))
    } else {
        Ok(None)
    }
}

/// Reads the text between `<` and `>`.
pub fn read_body<'a>(body: &'a str) -> (r: Result<Option<Tag<'a>>, Error>)
    ensures
        match specifier_of(body.spec_bytes()) {
            Err(e) => r == Err::<Option<Tag<'a>>, Error>(e),
            Ok(given) => r matches Ok(read) && same_tag(read, given),
        },
{
    let bytes = body.as_bytes();
    let ghost text = body.spec_bytes();
    proof {
        lemma_chars_of(body);
        is_char_boundary_start_end_of_seq(text);
    }
    let colon: usize = find(bytes, COLON, 0);
    if colon == bytes.len() {
        if equals_folded(bytes, "eor".as_bytes()) {
            Ok(None)
        } else {
            Err(Error::OtherError(NO_COLON))
        }
    } else {
        proof {
            lemma_find_from(text, COLON, 0);
            lemma_ascii_is_boundary(text, colon as int);
        }
        let name = substring(body, 0, colon);
        let tail = substring(body, colon + 1, bytes.len());
        let tail_bytes = tail.as_bytes();
        let ghost rest = tail.spec_bytes();
        proof {
            lemma_chars_of(tail);
            is_char_boundary_start_end_of_seq(rest);
        }
        let second: usize = find(tail_bytes, COLON, 0);
        let code = if second == tail_bytes.len() {
            substring(tail, second, second)
        } else {
            proof {
                lemma_find_from(rest, COLON, 0);
                lemma_ascii_is_boundary(rest, second as int);
            }
            substring(tail, second + 1, tail_bytes.len())
        };
        assert(second == rest.len() ==> code.spec_bytes() =~= Seq::<u8>::empty());
        let kind = match read_kind(code) {
            Err(e) => {
                return Err(e);
            },
            Ok(kind) => kind,
        };
        let digits = substring(tail, 0, second);
        match parse_usize(digits) {
            Err(_) => Err(Error::OtherError(BAD_LENGTH)),
            Ok(length) => Ok(Some(Tag { name, length, kind })),
        }
    }
}

/// Reads the tag at the start of `text`, from which leading white space has
/// been removed already, and gives it with the text that follows it.
pub fn read_specifier<'a>(text: &'a str) -> (r: Result<(Option<Tag<'a>>, &'a str), Error>)
    ensures
        match key_read(text.spec_bytes()) {
            Err(e) => r == Err::<(Option<Tag<'a>>, &'a str), Error>(e),
            Ok((given, used)) => r matches Ok((read, rest)) && same_tag(read, given)
                && rest.spec_bytes() == text.spec_bytes().skip(used),
        },
{
    let bytes = text.as_bytes();
    let ghost all = text.spec_bytes();
    proof {
        lemma_chars_of(text);
        is_char_boundary_start_end_of_seq(all);
    }
    if bytes.len() == 0 {
        return Err(Error::NoData);
    }
    if bytes[0] != LESS_THAN {
        return Err(Error::OtherError(NO_START));
    }
    let end: usize = find(bytes, GREATER_THAN, 1);
    if end == bytes.len() {
        return Err(Error::UnexpectedEndOfInput(NO_END));
    }
    proof {
        lemma_find_from(all, GREATER_THAN, 1);
        lemma_ascii_is_boundary(all, 0);
        lemma_ascii_is_boundary(all, end as int);
    }
    let body = substring(text, 1, end);
    let rest = substring(text, end + 1, bytes.len());
    match read_body(body) {
        Err(e) => Err(e),
        Ok(read) => Ok((read, rest)),
    }
}

} // verus!
