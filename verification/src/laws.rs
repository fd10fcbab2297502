//! What holds of every input: the rules of the field protocol and of the
//! stream of records, each proved from the definitions that the contracts
//! of the decoder use.

use crate::decoder::{fresh, key_step, value_step, State, BAD_STATE, UNREAD};
use crate::error::Error;
use crate::reader::{split, yielded};
use crate::record::{record_from, Deserialize, Record};
use crate::specifier::{key_read, specifier_of, NO_COLON, NO_START};
use crate::text::{
    find_from, lemma_find_from, lemma_find_from_is, lower, lowered, trimmed, COLON, GREATER_THAN,
    LESS_THAN,
};
use vstd::prelude::*;
use vstd::string::*;

verus! {

/// The tag that ends a record does so in any mix of upper and lower case:
/// whatever reads as `eor` once its letters are folded is that tag.
pub proof fn lemma_end_of_record_in_any_case(body: Seq<u8>)
    requires
        lowered(body) == "eor".spec_bytes(),
    ensures
        specifier_of(body) == Ok::<Option<crate::specifier::Specifier>, Error>(None),
{
    reveal_strlit("eor");
    is_ascii_spec_bytes("eor");
    let word = lowered(body);
    assert(body.len() == 3);
    assert forall|j: int| 0 <= j < 3 implies body[j] != COLON by {
        assert(word[j] == lower(body[j]));
    }
    lemma_find_from_is(body, COLON, 0, 3);
}

/// Two tags that differ only in the case of their letters both end a record,
/// or neither does.
pub proof fn lemma_case_does_not_tell_ends_apart(one: Seq<u8>, other: Seq<u8>)
    requires
        lowered(one) == lowered(other),
    ensures
        specifier_of(one) == Ok::<Option<crate::specifier::Specifier>, Error>(None)
            <==> specifier_of(other) == Ok::<Option<crate::specifier::Specifier>, Error>(None),
{
    assert(one.len() == lowered(one).len());
    assert(other.len() == lowered(other).len());
    assert forall|j: int| 0 <= j < one.len() implies (one[j] == COLON <==> other[j]
        == COLON) by {
        assert(lowered(one)[j] == lower(one[j]));
        assert(lowered(other)[j] == lower(other[j]));
    }
    lemma_find_from(one, COLON, 0);
    lemma_find_from(other, COLON, 0);
    let a = find_from(one, COLON, 0);
    let b = find_from(other, COLON, 0);
    if a < one.len() {
        assert(other[a] == COLON);
        assert(b <= a);
    }
    if b < other.len() {
        assert(one[b] == COLON);
        assert(a <= b);
    }
}

/// A tag with no `:` in it that is not the end of a record is refused for
/// the lack of the colon.
pub proof fn lemma_tag_without_colon(body: Seq<u8>)
    requires
        forall|j: int| 0 <= j < body.len() ==> body[j] != COLON,
        lowered(body) != "eor".spec_bytes(),
    ensures
        specifier_of(body) == Err::<Option<crate::specifier::Specifier>, Error>(
            Error::OtherError(NO_COLON),
        ),
{
    lemma_find_from_is(body, COLON, 0, body.len() as int);
}

/// The same, seen from the text that holds the tag: where the tag is closed
/// and has no colon, reading the key fails for the lack of the colon, with
/// whatever follows the tag.
pub proof fn lemma_text_with_tag_without_colon(text: Seq<u8>, end: int)
    requires
        1 <= end < text.len(),
        text[0] == LESS_THAN,
        text[end] == GREATER_THAN,
        forall|j: int| 1 <= j < end ==> text[j] != GREATER_THAN && text[j] != COLON,
        lowered(text.subrange(1, end)) != "eor".spec_bytes(),
    ensures
        key_read(text) == Err::<(Option<crate::specifier::Specifier>, int), Error>(
            Error::OtherError(NO_COLON),
        ),
{
    lemma_find_from_is(text, GREATER_THAN, 1, end);
    lemma_tag_without_colon(text.subrange(1, end));
}

/// Text that is left and does not start with `<` is no tag, whatever it
/// holds further on: what decides where a value ends is its length, and a
/// delimiter inside it or after it is never looked for.
pub proof fn lemma_text_that_is_no_tag(text: Seq<u8>)
    requires
        text.len() > 0,
        text[0] != LESS_THAN,
    ensures
        key_read(text) == Err::<(Option<crate::specifier::Specifier>, int), Error>(
            Error::OtherError(NO_START),
        ),
{
}

/// A value is read all or not at all: either the value is the first
/// `length` bytes of the input, the cursor has moved past just these and the
/// length is no longer held, or reading fails.
pub proof fn lemma_value_is_all_or_nothing(before: State, shape: &'static str)
    ensures
        match value_step(before, shape) {
            Ok((value, after)) => {
                &&& before.length is Some
                &&& value.len() == before.length->0
                &&& value + after.text == before.text
                &&& after.length is None
                &&& after.key == before.key
                &&& after.kind == before.kind
            },
            Err(_) => true,
        },
{
    if value_step(before, shape) is Ok {
        let n = before.length->0 as int;
        assert(before.text.subrange(0, n) + before.text.skip(n) =~= before.text);
    }
}

/// No value is read before its key has been delivered, and none where no
/// field was announced: that is refused with the name of the shape that
/// was asked for.
pub proof fn lemma_key_comes_before_value(before: State, shape: &'static str)
    ensures
        before.key is Some ==> value_step(before, shape) == Err::<(Seq<u8>, State), Error>(
            Error::OtherError(BAD_STATE),
        ),
        before.key is None && before.length is None ==> value_step(before, shape) == Err::<
            (Seq<u8>, State),
            Error,
        >(Error::InvalidType(shape)),
{
}

/// No key is read, and no record ended, while the value of the field before
/// is unread; the decoder is left as it was.
pub proof fn lemma_value_comes_before_next_key(before: State)
    requires
        before.length is Some,
    ensures
        key_step(before) == (Err::<bool, Error>(Error::OtherError(UNREAD)), before),
{
}

/// A text that starts with a tag has no header: all of it is records.
pub proof fn lemma_text_that_starts_with_tag_has_no_header(text: Seq<u8>)
    requires
        text.len() > 0,
        text[0] == LESS_THAN,
    ensures
        split(text) == Some((None::<Seq<u8>>, text)),
{
}

/// Header and records are parts of the log: with the five bytes of the tag
/// between them they make up the whole of it, and the header holds no such
/// tag.
pub proof fn lemma_split_keeps_the_text(text: Seq<u8>)
    ensures
        match split(text) {
            Some((Some(header), records)) => {
                &&& header.len() + 5 + records.len() == text.len()
                &&& header == text.subrange(0, header.len() as int)
                &&& records == text.skip(header.len() as int + 5)
                &&& crate::reader::eoh_at(text, header.len() as int)
                &&& forall|j: int| 0 <= j < header.len() ==> !crate::reader::eoh_at(text, j)
            },
            Some((None, records)) => records == text,
            None => forall|j: int| !crate::reader::eoh_at(text, j),
        },
{
    crate::reader::lemma_find_eoh(text, 0);
}

/// Where only white space is left, or nothing, the consumer of whole records
/// meets `NoData`, so a stream of such records ends there, with no item and
/// no error.
pub proof fn lemma_stream_ends_where_input_ends<'de>(
    text: Seq<u8>,
    out: Result<Record<'de>, Error>,
    after: State,
)
    requires
        trimmed(text).len() == 0,
        Record::decodes(fresh(text), out, after),
    ensures
        out == Err::<Record<'de>, Error>(Error::NoData),
        yielded(out) is None,
        after.text.len() == 0,
{
}

/// Empty input is such an input.
pub proof fn lemma_empty_input_is_exhausted(text: Seq<u8>)
    requires
        text.len() == 0,
    ensures
        trimmed(text).len() == 0,
{
}

/// The stream ends on `NoData` and on nothing else: every other outcome of a
/// decoding is an item.
pub proof fn lemma_only_no_data_ends_stream<D>(out: Result<D, Error>)
    ensures
        yielded(out) is None <==> out == Err::<D, Error>(Error::NoData),
        yielded(out) matches Some(item) ==> item == out,
{
}

} // verus!
