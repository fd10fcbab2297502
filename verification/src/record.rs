//! Consumers of records: what a type must offer to be decoded from a
//! record, and the consumer that takes a record as it comes, every field
//! with its name and its text, in the order of the input.

use crate::decoder::{key_step, value_step, RecordDeserializer, State};
use crate::error::Error;
use crate::specifier::key_read;
use crate::text::{lemma_find_from, trimmed, GREATER_THAN};
use vstd::prelude::*;
use vstd::string::*;

verus! {

/// A type whose values are decoded from records. Its decoding routine asks
/// the decoder for keys and values in turn.
pub trait Deserialize<'de>: Sized {
    /// Whether decoding from a decoder in the state `before` can give `out`
    /// and leave the decoder in the state `after`. A type that says nothing
    /// of its decoding leaves this as it is: anything can come of it.
    open spec fn decodes(before: State, out: Result<Self, Error>, after: State) -> bool {
        true
    }

    /// Decodes one value.
    fn deserialize(deserializer: &mut RecordDeserializer<'de>) -> (out: Result<Self, Error>)
        ensures
            Self::decodes(old(deserializer)@, out, final(deserializer)@),
    ;
}

/// A field as the input gives it.
#[derive(Debug)]
pub struct Field<'de> {
    /// The name, in lower case.
    pub name: String,
    /// The value, a part of the input.
    pub value: &'de str,
}

/// What a field holds: the characters of its name and the bytes of its
/// value.
pub struct FieldView {
    pub name: Seq<char>,
    pub value: Seq<u8>,
}

impl<'de> View for Field<'de> {
    type V = FieldView;

    open spec fn view(&self) -> FieldView {
        FieldView { name: self.name@, value: self.value.spec_bytes() }
    }
}

/// The fields of one record, in the order of the input.
#[derive(Debug)]
pub struct Record<'de> {
    pub fields: Vec<Field<'de>>,
}

impl<'de> View for Record<'de> {
    type V = Seq<FieldView>;

    open spec fn view(&self) -> Seq<FieldView> {
        Seq::new(self.fields@.len(), |i: int| self.fields@[i]@)
    }
}

/// Reading a key never gives text back, and a key that is read takes some.
pub proof fn lemma_key_step_consumes(before: State)
    ensures
        key_step(before).1.text.len() <= before.text.len(),
        key_step(before).0 is Ok && before.length is None ==> key_step(before).1.text.len()
            < before.text.len(),
{
    if before.length is None {
        let text = trimmed(before.text);
        if text.len() > 0 {
            lemma_find_from(text, GREATER_THAN, 1);
        }
    }
}

/// Reading a value never gives text back.
pub proof fn lemma_value_step_consumes(before: State, shape: &'static str)
    ensures
        value_step(before, shape) matches Ok((_, after)) ==> after.text.len()
            <= before.text.len(),
{
}

/// The fields of the record that starts in the state `from`, up to the end of
/// the record, and the state after it; or the first error on the way, and the
/// state in which it was met.
pub open spec fn record_from(from: State) -> (Result<Seq<FieldView>, Error>, State)
    decreases from.text.len(),
    via record_from_ends
{
    match key_step(from) {
        (Err(e), after) => (Err(e), after),
        (Ok(false), after) => (Ok(Seq::empty()), after),
        (Ok(true), after) => {
            let named = State { key: None, ..after };
            match value_step(named, "str") {
                Err(e) => (Err(e), named),
                Ok((value, next)) => {
                    let field = FieldView { name: after.key->0, value };
                    match record_from(next) {
                        (Err(e), last) => (Err(e), last),
                        (Ok(fields), last) => (Ok(seq![field] + fields), last),
                    }
                },
            }
        },
    }
}

#[via_fn]
proof fn record_from_ends(from: State) {
    lemma_key_step_consumes(from);
    let after = key_step(from).1;
    lemma_value_step_consumes(State { key: None, ..after }, "str");
}

impl<'de> Deserialize<'de> for Record<'de> {
    /// A record is decoded in one way: as `record_from` says.
    open spec fn decodes(before: State, out: Result<Self, Error>, after: State) -> bool {
        &&& after == record_from(before).1
        &&& match (out, record_from(before).0) {
            (Ok(record), Ok(fields)) => record@ == fields,
            (Err(e), Err(expected)) => e == expected,
            _ => false,
        }
    }

    fn deserialize(deserializer: &mut RecordDeserializer<'de>) -> (out: Result<Self, Error>) {
        let ghost start = deserializer@;
        let mut fields: Vec<Field<'de>> = Vec::new();
        let ghost mut done: Seq<FieldView> = Seq::empty();
        loop
            invariant
                start == old(deserializer)@,
                done == Seq::new(fields@.len(), |i: int| fields@[i]@),
                record_from(start).1 == record_from(deserializer@).1,
                record_from(start).0 == match record_from(deserializer@).0 {
                    Ok(rest) => Ok::<Seq<FieldView>, Error>(done + rest),
                    Err(e) => Err(e),
                },
            decreases deserializer@.text.len(),
        {
            let ghost before = deserializer@;
            proof {
                lemma_key_step_consumes(before);
                lemma_value_step_consumes(State { key: None, ..key_step(before).1 }, "str");
            }
            let key = match deserializer.next_key() {
                Err(e) => {
                    return Err(e);
                },
                Ok(None) => {
                    assert(done + Seq::<FieldView>::empty() =~= done);
                    let record = Record { fields };
                    assert(record@ =~= done);
                    return Ok(record);
                },
                Ok(Some(key)) => key,
            };
            let value = match deserializer.get_str() {
                Err(e) => {
                    return Err(e);
                },
                Ok(value) => value,
            };
            let field = Field { name: key, value };
            proof {
                let rest = record_from(deserializer@).0;
                if rest is Ok {
                    assert(done + (seq![field@] + rest->Ok_0) =~= (done + seq![field@])
                        + rest->Ok_0);
                }
                done = done + seq![field@];
            }
            fields.push(field);
            assert(done =~= Seq::new(fields@.len(), |i: int| fields@[i]@));
        }
    }
}

} // verus!
