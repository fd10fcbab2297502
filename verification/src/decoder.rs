//! The decoder of one record: a cursor into the input and the field that is
//! being read. A consumer asks it for the next key, and then for the value
//! in the form it wants.

use crate::error::Error;
use crate::number::{
    integer_within, parse_i16, parse_i32, parse_i64, parse_i8, parse_u16, parse_u32, parse_u64,
    parse_u8,
};
use crate::specifier::{key_read, read_specifier};
use crate::text::{
    equals_folded, lemma_chars_of, lowercase_of, lowered, substring, to_lowercase, trim_start,
    trimmed,
};
use vstd::prelude::*;
use vstd::string::*;
use vstd::utf8::*;

verus! {

/// A key was asked for while the value of the field before is unread.
pub const UNREAD: &'static str = "did not read previous value";

/// A value was asked for while the key of its field is undelivered.
pub const BAD_STATE: &'static str = "unexpected deserializer state";

/// The input ends before the value does.
pub const SHORT_VALUE: &'static str = "while reading a value";

/// The length of a value ends it in the middle of a character.
pub const SPLIT_VALUE: &'static str = "value does not end with a character";

/// What a decoder holds between two calls.
pub struct State {
    /// The input that is left.
    pub text: Seq<u8>,
    /// The name of the field that was announced and not yet delivered.
    pub key: Option<Seq<char>>,
    /// The length of the value that was announced and not yet read.
    pub length: Option<usize>,
    /// The type code of the field that was announced last.
    pub kind: Option<char>,
}

/// The state in which the decoding of a record starts.
pub open spec fn fresh(text: Seq<u8>) -> State {
    State { text, key: None, length: None, kind: None }
}

/// Reading a key: the answer and the state after it.
///
/// It is refused while a value is unread. Else leading white space goes, and
/// then the tag decides: at the end of a record only the tag is consumed; at
/// a field the tag is consumed and its name, in lower case, its length and
/// its type code are held. An error leaves the cursor behind the white space.
pub open spec fn key_step(before: State) -> (Result<bool, Error>, State) {
    if before.length is Some {
        (Err(Error::OtherError(UNREAD)), before)
    } else {
        let text = trimmed(before.text);
        match key_read(text) {
            Err(e) => (Err(e), State { text, ..before }),
            Ok((None, used)) => (Ok(false), State { text: text.skip(used), ..before }),
            Ok((Some(specifier), used)) => (
                Ok(true),
                State {
                    text: text.skip(used),
                    key: Some(lowercase_of(decode_utf8(specifier.name))),
                    length: Some(specifier.length),
                    kind: specifier.kind,
                },
            ),
        }
    }
}

/// Reading a value as a `shape`: its bytes and the state after it, or the
/// error.
///
/// It is refused while the key is undelivered, and where no value was
/// announced; the error then names the shape that was asked for. The value
/// is the next `length` bytes, all or nothing: where fewer are left, or
/// where they end inside a character, it is an error.
pub open spec fn value_step(before: State, shape: &'static str) -> Result<
    (Seq<u8>, State),
    Error,
> {
    if before.key is Some {
        Err(Error::OtherError(BAD_STATE))
    } else {
        match before.length {
            None => Err(Error::InvalidType(shape)),
            Some(n) => if n > before.text.len() {
                Err(Error::UnexpectedEndOfInput(SHORT_VALUE))
            } else if !is_char_boundary(before.text, n as int) {
                Err(Error::OtherError(SPLIT_VALUE))
            } else {
                Ok(
                    (
                        before.text.subrange(0, n as int),
                        State { text: before.text.skip(n as int), length: None, ..before },
                    ),
                )
            },
        }
    }
}

/// The truth value that a text stands for, in any mix of upper and lower
/// case. `t` stands for false and `f` for true.
pub open spec fn bool_of(text: Seq<u8>) -> Option<bool> {
    let word = lowered(text);
    if word == "0".spec_bytes() || word == "n".spec_bytes() || word == "no".spec_bytes() || word
        == "t".spec_bytes() || word == "false".spec_bytes() {
        Some(false)
    } else if word == "1".spec_bytes() || word == "y".spec_bytes() || word == "yes".spec_bytes()
        || word == "f".spec_bytes() || word == "true".spec_bytes() {
        Some(true)
    } else {
        None
    }
}

/// Reads the truth value that `text` stands for.
pub fn read_bool(text: &str) -> (r: Option<bool>)
    ensures
        r == bool_of(text.spec_bytes()),
{
    let bytes = text.as_bytes();
    if equals_folded(bytes, "0".as_bytes()) || equals_folded(bytes, "n".as_bytes())
        || equals_folded(bytes, "no".as_bytes()) || equals_folded(bytes, "t".as_bytes())
        || equals_folded(bytes, "false".as_bytes()) {
        Some(false)
    } else if equals_folded(bytes, "1".as_bytes()) || equals_folded(bytes, "y".as_bytes())
        || equals_folded(bytes, "yes".as_bytes()) || equals_folded(bytes, "f".as_bytes())
        || equals_folded(bytes, "true".as_bytes()) {
        Some(true)
    } else {
        None
    }
}

/// The character that a text consists of, if it is exactly one.
pub open spec fn char_of(text: Seq<u8>) -> Option<char> {
    if decode_utf8(text).len() == 1 {
        Some(decode_utf8(text)[0])
    } else {
        None
    }
}

/// Reads the one character that `text` consists of.
pub fn read_char(text: &str) -> (r: Option<char>)
    ensures
        r == char_of(text.spec_bytes()),
{
    proof {
        lemma_chars_of(text);
    }
    if text.unicode_len() == 1 {
        Some(text.get_char(0))
    } else {
        None
    }
}

/// What a decoder hands to a consumer that left the choice of the form to
/// it.
#[derive(Debug)]
pub enum Visit<'de> {
    /// The name of the field that was announced, as a string of its own.
    Key(String),
    /// The value of the field, as the part of the input that it is.
    Text(&'de str),
    /// Nothing: what was there has been passed over.
    Nothing,
    /// The record itself, to be asked for its keys and values in turn.
    Record,
}

/// The shapes that no record has, which a decoder therefore refuses.
#[derive(Clone, Copy, Debug, PartialEq, Eq)]
pub enum Shape {
    Unit,
    UnitStruct,
    NewtypeStruct,
    Sequence,
    Tuple,
    TupleStruct,
    Enum,
}

impl Shape {
    /// The name by which an error calls the shape.
    pub open spec fn name(self) -> &'static str {
        match self {
            Shape::Unit => "unit",
            Shape::UnitStruct => "unit struct",
            Shape::NewtypeStruct => "newtype struct",
            Shape::Sequence => "seq",
            Shape::Tuple => "tuple",
            Shape::TupleStruct => "tuple struct",
            Shape::Enum => "enum",
        }
    }

    /// The error with which a decoder answers a request for this shape.
    pub fn refuse(self) -> (e: Error)
        ensures
            e == Error::InvalidType(self.name()),
    {
        match self {
            Shape::Unit => Error::InvalidType("unit"),
            Shape::UnitStruct => Error::InvalidType("unit struct"),
            Shape::NewtypeStruct => Error::InvalidType("newtype struct"),
            Shape::Sequence => Error::InvalidType("seq"),
            Shape::Tuple => Error::InvalidType("tuple"),
            Shape::TupleStruct => Error::InvalidType("tuple struct"),
            Shape::Enum => Error::InvalidType("enum"),
        }
    }
}

/// The decoder of one record.
pub struct RecordDeserializer<'de> {
    records: &'de str,
    read_string: Option<String>,
    characters_to_read: Option<usize>,
    next_type: Option<char>,
}

impl<'de> View for RecordDeserializer<'de> {
    type V = State;

    closed spec fn view(&self) -> State {
        State {
            text: self.records.spec_bytes(),
            key: match self.read_string {
                Some(name) => Some(name@),
                None => None,
            },
            length: self.characters_to_read,
            kind: self.next_type,
        }
    }
}

impl<'de> RecordDeserializer<'de> {
    /// A decoder at the start of `records`, with no field announced.
    pub fn new(records: &'de str) -> (decoder: Self)
        ensures
            decoder@ == fresh(records.spec_bytes()),
    {
        RecordDeserializer {
            records,
            read_string: None,
            characters_to_read: None,
            next_type: None,
        }
    }

    /// The input that is left.
    pub fn remaining(&self) -> (rest: &'de str)
        ensures
            rest.spec_bytes() == self@.text,
    {
        self.records
    }

    /// The type code of the field that was announced last.
    pub fn field_type(&self) -> (kind: Option<char>)
        ensures
            kind == self@.kind,
    {
        self.next_type
    }

    /// Reads the tag of the next field and holds what it says. `Ok(true)`
    /// announces a field, `Ok(false)` the end of the record.
    pub fn read_key(&mut self) -> (r: Result<bool, Error>)
        ensures
            (r, final(self)@) == key_step(old(self)@),
    {
        if self.characters_to_read.is_some() {
            return Err(Error::OtherError(UNREAD));
        }
        self.records = trim_start(self.records);
        match read_specifier(self.records) {
            Err(e) => Err(e),
            Ok((None, rest)) => {
                self.records = rest;
                Ok(false)
            },
            Ok((Some(tag), rest)) => {
                proof {
                    lemma_chars_of(tag.name);
                }
                self.records = rest;
                self.read_string = Some(to_lowercase(tag.name));
                self.characters_to_read = Some(tag.length);
                self.next_type = tag.kind;
                Ok(true)
            },
        }
    }

    /// Reads the value that was announced, as the part of the input that it
    /// is, for a consumer that wants a `shape` of it.
    pub fn read_value(&mut self, shape: &'static str) -> (r: Result<&'de str, Error>)
        ensures
            match value_step(old(self)@, shape) {
                Err(e) => r == Err::<&'de str, Error>(e) && final(self)@ == old(self)@,
                Ok((value, after)) => r matches Ok(read) && read.spec_bytes() == value
                    && final(self)@ == after,
            },
    {
        if self.read_string.is_some() {
            return Err(Error::OtherError(BAD_STATE));
        }
        match self.characters_to_read {
            None => Err(Error::InvalidType(shape)),
            Some(length) => {
                proof {
                    lemma_chars_of(self.records);
                    is_char_boundary_start_end_of_seq(self.records.spec_bytes());
                }
                let left: usize = self.records.as_bytes().len();
                if length > left {
                    Err(Error::UnexpectedEndOfInput(SHORT_VALUE))
                } else if !self.records.is_char_boundary(length) {
                    Err(Error::OtherError(SPLIT_VALUE))
                } else {
                    let value = substring(self.records, 0, length);
                    self.records = substring(self.records, length, left);
                    self.characters_to_read = None;
                    Ok(value)
                }
            },
        }
    }

    /// Reads the value that was announced, as the part of the input that it
    /// is.
    pub fn get_str(&mut self) -> (r: Result<&'de str, Error>)
        ensures
            match value_step(old(self)@, "str") {
                Err(e) => r == Err::<&'de str, Error>(e) && final(self)@ == old(self)@,
                Ok((value, after)) => r matches Ok(read) && read.spec_bytes() == value
                    && final(self)@ == after,
            },
    {
        self.read_value("str")
    }

    /// Reads the value that was announced and takes it for one character.
    /// The value is consumed also where it is none.
    pub fn get_char(&mut self) -> (r: Result<char, Error>)
        ensures
            match value_step(old(self)@, "char") {
                Err(e) => r == Err::<char, Error>(e) && final(self)@ == old(self)@,
                Ok((value, after)) => final(self)@ == after && r == match char_of(value) {
                    Some(c) => Ok::<char, Error>(c),
                    None => Err(Error::InvalidType("char")),
                },
            },
    {
        let value = self.read_value("char")?;
        match read_char(value) {
            Some(c) => Ok(c),
            None => Err(Error::InvalidType("char")),
        }
    }

    /// Delivers the name of the field that was announced, once.
    pub fn deserialize_identifier(&mut self) -> (r: Result<String, Error>)
        ensures
            match old(self)@.key {
                Some(name) => r matches Ok(key) && key@ == name && final(self)@ == (State {
                    key: None,
                    ..old(self)@
                }),
                None => r == Err::<String, Error>(Error::InvalidType("identifier")) && final(self)@
                    == old(self)@,
            },
    {
        match self.read_string.take() {
            Some(key) => Ok(key),
            None => Err(Error::InvalidType("identifier")),
        }
    }

    /// Reads the tag of the next field and delivers its name, in lower
    /// case. `None` is the end of the record.
    pub fn next_key(&mut self) -> (r: Result<Option<String>, Error>)
        ensures
            match key_step(old(self)@) {
                (Err(e), after) => r == Err::<Option<String>, Error>(e) && final(self)@ == after,
                (Ok(false), after) => r == Ok::<Option<String>, Error>(None) && final(self)@
                    == after,
                (Ok(true), after) => r matches Ok(Some(key)) && Some(key@) == after.key && final(self)@ == (State { key: None, ..after }),
            },
    {
        if self.read_key()? {
            let key = self.deserialize_identifier()?;
            Ok(Some(key))
        } else {
            Ok(None)
        }
    }

    /// Reads the value that was announced and takes it for a truth value.
    /// The value is consumed also where it is none.
    pub fn deserialize_bool(&mut self) -> (r: Result<bool, Error>)
        ensures
            match value_step(old(self)@, "bool") {
                Err(e) => r == Err::<bool, Error>(e) && final(self)@ == old(self)@,
                Ok((value, after)) => final(self)@ == after && r == match bool_of(value) {
                    Some(b) => Ok::<bool, Error>(b),
                    None => Err(Error::InvalidType("bool")),
                },
            },
    {
        let value = self.read_value("bool")?;
        match read_bool(value) {
            Some(b) => Ok(b),
            None => Err(Error::InvalidType("bool")),
        }
    }

    /// Delivers the key if one is undelivered, and else reads the value
    /// that was announced.
    pub fn deserialize_str(&mut self) -> (r: Result<Visit<'de>, Error>)
        ensures
            match old(self)@.key {
                Some(name) => r matches Ok(Visit::Key(key)) && key@ == name && final(self)@ == (
                State { key: None, ..old(self)@ }),
                None => match value_step(old(self)@, "str") {
                    Err(e) => r == Err::<Visit<'de>, Error>(e) && final(self)@ == old(self)@,
                    Ok((value, after)) => r matches Ok(Visit::Text(read)) && read.spec_bytes()
                        == value && final(self)@ == after,
                },
            },
    {
        match self.read_string.take() {
            Some(key) => Ok(Visit::Key(key)),
            None => {
                let value = self.get_str()?;
                Ok(Visit::Text(value))
            },
        }
    }

    /// As `deserialize_str`: a value is lent from the input also where a
    /// string of its own was asked for.
    pub fn deserialize_string(&mut self) -> (r: Result<Visit<'de>, Error>)
        ensures
            match old(self)@.key {
                Some(name) => r matches Ok(Visit::Key(key)) && key@ == name && final(self)@ == (
                State { key: None, ..old(self)@ }),
                None => match value_step(old(self)@, "string") {
                    Err(e) => r == Err::<Visit<'de>, Error>(e) && final(self)@ == old(self)@,
                    Ok((value, after)) => r matches Ok(Visit::Text(read)) && read.spec_bytes()
                        == value && final(self)@ == after,
                },
            },
    {
        match self.read_string.take() {
            Some(key) => Ok(Visit::Key(key)),
            None => {
                let value = self.read_value("string")?;
                Ok(Visit::Text(value))
            },
        }
    }

    /// Reads the value that was announced, as its bytes.
    pub fn deserialize_bytes(&mut self) -> (r: Result<&'de [u8], Error>)
        ensures
            match value_step(old(self)@, "bytes") {
                Err(e) => r == Err::<&'de [u8], Error>(e) && final(self)@ == old(self)@,
                Ok((value, after)) => r matches Ok(read) && read@ == value && final(self)@
                    == after,
            },
    {
        let value = self.read_value("bytes")?;
        Ok(value.as_bytes())
    }

    /// Answers a consumer that takes whatever comes: the key if one is
    /// undelivered; an error while a value is unread, for a value has no
    /// form of its own; and else the record.
    pub fn deserialize_any(&mut self) -> (r: Result<Visit<'de>, Error>)
        ensures
            match old(self)@.key {
                Some(name) => r matches Ok(Visit::Key(key)) && key@ == name && final(self)@ == (
                State { key: None, ..old(self)@ }),
                None => final(self)@ == old(self)@ && if old(self)@.length is Some {
                    r == Err::<Visit<'de>, Error>(Error::InvalidType("any"))
                } else {
                    r == Ok::<Visit<'de>, Error>(Visit::Record)
                },
            },
    {
        match self.read_string.take() {
            Some(key) => Ok(Visit::Key(key)),
            None => if self.characters_to_read.is_some() {
                Err(Error::InvalidType("any"))
            } else {
                Ok(Visit::Record)
            },
        }
    }

    /// Passes over what stands next: the key if one is undelivered, else the
    /// value that was announced, all of it or none. Where neither is there,
    /// the consumer is shown the record.
    pub fn deserialize_ignored_any(&mut self) -> (r: Result<Visit<'de>, Error>)
        ensures
            match old(self)@.key {
                Some(_) => r == Ok::<Visit<'de>, Error>(Visit::Nothing) && final(self)@ == (State {
                    key: None,
                    ..old(self)@
                }),
                None => if old(self)@.length is Some {
                    match value_step(old(self)@, "ignored any") {
                        Err(e) => r == Err::<Visit<'de>, Error>(e) && final(self)@ == old(self)@,
                        Ok((_, after)) => r == Ok::<Visit<'de>, Error>(Visit::Nothing) && final(self)@ == after,
                    }
                } else {
                    r == Ok::<Visit<'de>, Error>(Visit::Record) && final(self)@ == old(self)@
                },
            },
    {
        if self.read_string.take().is_some() {
            Ok(Visit::Nothing)
        } else if self.characters_to_read.is_some() {
            let _ = self.read_value("ignored any")?;
            Ok(Visit::Nothing)
        } else {
            Ok(Visit::Record)
        }
    }

    /// Reads the value that was announced and takes it for an `i8`:
    /// an optional `+` or `-` and decimal digits. The value is consumed also
    /// where it is no such number.
    pub fn deserialize_i8(&mut self) -> (r: Result<i8, Error>)
        ensures
            match value_step(old(self)@, "i8") {
                Err(e) => r == Err::<i8, Error>(e) && final(self)@ == old(self)@,
                Ok((value, after)) => final(self)@ == after && match integer_within(
                    value,
                    true,
                    i8::MIN as int,
                    i8::MAX as int,
                ) {
                    Some(n) => r == Ok::<i8, Error>(n as i8),
                    None => r matches Err(Error::ParseIntError(_)),
                },
            },
    {
        let value = self.read_value("i8")?;
        match parse_i8(value) {
            Ok(n) => Ok(n),
            Err(e) => Err(Error::from(e)),
        }
    }

    /// Reads the value that was announced and takes it for an `i16`:
    /// an optional `+` or `-` and decimal digits. The value is consumed also
    /// where it is no such number.
    pub fn deserialize_i16(&mut self) -> (r: Result<i16, Error>)
        ensures
            match value_step(old(self)@, "i16") {
                Err(e) => r == Err::<i16, Error>(e) && final(self)@ == old(self)@,
                Ok((value, after)) => final(self)@ == after && match integer_within(
                    value,
                    true,
                    i16::MIN as int,
                    i16::MAX as int,
                ) {
                    Some(n) => r == Ok::<i16, Error>(n as i16),
                    None => r matches Err(Error::ParseIntError(_)),
                },
            },
    {
        let value = self.read_value("i16")?;
        match parse_i16(value) {
            Ok(n) => Ok(n),
            Err(e) => Err(Error::from(e)),
        }
    }

    /// Reads the value that was announced and takes it for an `i32`:
    /// an optional `+` or `-` and decimal digits. The value is consumed also
    /// where it is no such number.
    pub fn deserialize_i32(&mut self) -> (r: Result<i32, Error>)
        ensures
            match value_step(old(self)@, "i32") {
                Err(e) => r == Err::<i32, Error>(e) && final(self)@ == old(self)@,
                Ok((value, after)) => final(self)@ == after && match integer_within(
                    value,
                    true,
                    i32::MIN as int,
                    i32::MAX as int,
                ) {
                    Some(n) => r == Ok::<i32, Error>(n as i32),
                    None => r matches Err(Error::ParseIntError(_)),
                },
            },
    {
        let value = self.read_value("i32")?;
        match parse_i32(value) {
            Ok(n) => Ok(n),
            Err(e) => Err(Error::from(e)),
        }
    }

    /// Reads the value that was announced and takes it for an `i64`:
    /// an optional `+` or `-` and decimal digits. The value is consumed also
    /// where it is no such number.
    pub fn deserialize_i64(&mut self) -> (r: Result<i64, Error>)
        ensures
            match value_step(old(self)@, "i64") {
                Err(e) => r == Err::<i64, Error>(e) && final(self)@ == old(self)@,
                Ok((value, after)) => final(self)@ == after && match integer_within(
                    value,
                    true,
                    i64::MIN as int,
                    i64::MAX as int,
                ) {
                    Some(n) => r == Ok::<i64, Error>(n as i64),
                    None => r matches Err(Error::ParseIntError(_)),
                },
            },
    {
        let value = self.read_value("i64")?;
        match parse_i64(value) {
            Ok(n) => Ok(n),
            Err(e) => Err(Error::from(e)),
        }
    }

    /// Reads the value that was announced and takes it for an `u8`:
    /// an optional `+` and decimal digits. The value is consumed also
    /// where it is no such number.
    pub fn deserialize_u8(&mut self) -> (r: Result<u8, Error>)
        ensures
            match value_step(old(self)@, "u8") {
                Err(e) => r == Err::<u8, Error>(e) && final(self)@ == old(self)@,
                Ok((value, after)) => final(self)@ == after && match integer_within(
                    value,
                    false,
                    0,
                    u8::MAX as int,
                ) {
                    Some(n) => r == Ok::<u8, Error>(n as u8),
                    None => r matches Err(Error::ParseIntError(_)),
                },
            },
    {
        let value = self.read_value("u8")?;
        match parse_u8(value) {
            Ok(n) => Ok(n),
            Err(e) => Err(Error::from(e)),
        }
    }

    /// Reads the value that was announced and takes it for an `u16`:
    /// an optional `+` and decimal digits. The value is consumed also
    /// where it is no such number.
    pub fn deserialize_u16(&mut self) -> (r: Result<u16, Error>)
        ensures
            match value_step(old(self)@, "u16") {
                Err(e) => r == Err::<u16, Error>(e) && final(self)@ == old(self)@,
                Ok((value, after)) => final(self)@ == after && match integer_within(
                    value,
                    false,
                    0,
                    u16::MAX as int,
                ) {
                    Some(n) => r == Ok::<u16, Error>(n as u16),
                    None => r matches Err(Error::ParseIntError(_)),
                },
            },
    {
        let value = self.read_value("u16")?;
        match parse_u16(value) {
            Ok(n) => Ok(n),
            Err(e) => Err(Error::from(e)),
        }
    }

    /// Reads the value that was announced and takes it for an `u32`:
    /// an optional `+` and decimal digits. The value is consumed also
    /// where it is no such number.
    pub fn deserialize_u32(&mut self) -> (r: Result<u32, Error>)
        ensures
            match value_step(old(self)@, "u32") {
                Err(e) => r == Err::<u32, Error>(e) && final(self)@ == old(self)@,
                Ok((value, after)) => final(self)@ == after && match integer_within(
                    value,
                    false,
                    0,
                    u32::MAX as int,
                ) {
                    Some(n) => r == Ok::<u32, Error>(n as u32),
                    None => r matches Err(Error::ParseIntError(_)),
                },
            },
    {
        let value = self.read_value("u32")?;
        match parse_u32(value) {
            Ok(n) => Ok(n),
            Err(e) => Err(Error::from(e)),
        }
    }

    /// Reads the value that was announced and takes it for an `u64`:
    /// an optional `+` and decimal digits. The value is consumed also
    /// where it is no such number.
    pub fn deserialize_u64(&mut self) -> (r: Result<u64, Error>)
        ensures
            match value_step(old(self)@, "u64") {
                Err(e) => r == Err::<u64, Error>(e) && final(self)@ == old(self)@,
                Ok((value, after)) => final(self)@ == after && match integer_within(
                    value,
                    false,
                    0,
                    u64::MAX as int,
                ) {
                    Some(n) => r == Ok::<u64, Error>(n as u64),
                    None => r matches Err(Error::ParseIntError(_)),
                },
            },
    {
        let value = self.read_value("u64")?;
        match parse_u64(value) {
            Ok(n) => Ok(n),
            Err(e) => Err(Error::from(e)),
        }
    }
}

} // verus!
