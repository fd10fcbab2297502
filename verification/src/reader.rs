//! The entry to a log: the split of header and records, and the stream of
//! records that is decoded from what follows the header.

use crate::decoder::{fresh, RecordDeserializer, State};
use crate::text::{
    equals_folded, find, lemma_ascii_is_boundary, lemma_chars_of, lemma_find_from, lower,
    lowered, substring, LESS_THAN,
};
use core::marker::PhantomData;
use vstd::prelude::*;
use vstd::string::*;
use vstd::utf8::*;

pub use crate::error::Error;
pub use crate::record::Deserialize;

verus! {

/// Whether the tag that ends a header, `<eoh>` in any mix of upper and lower
/// case, stands in `text` at `at`.
pub open spec fn eoh_at(text: Seq<u8>, at: int) -> bool {
    &&& 0 <= at
    &&& at + 5 <= text.len()
    &&& text[at] == LESS_THAN
    &&& lowered(text.subrange(at + 1, at + 5)) == "eoh>".spec_bytes()
}

/// The first position at or after `from` at which the tag that ends a header
/// stands in `text`, or the length of `text` if it stands nowhere.
pub open spec fn find_eoh(text: Seq<u8>, from: int) -> int
    decreases text.len() - from,
{
    if from < 0 || from >= text.len() {
        text.len() as int
    } else if eoh_at(text, from) {
        from
    } else {
        find_eoh(text, from + 1)
    }
}

/// `find_eoh` gives the first such tag: none stands before it.
pub proof fn lemma_find_eoh(text: Seq<u8>, from: int)
    requires
        0 <= from <= text.len(),
    ensures
        from <= find_eoh(text, from) <= text.len(),
        find_eoh(text, from) < text.len() ==> eoh_at(text, find_eoh(text, from)),
        forall|j: int| from <= j < find_eoh(text, from) ==> !eoh_at(text, j),
    decreases text.len() - from,
{
    if from < text.len() && !eoh_at(text, from) {
        lemma_find_eoh(text, from + 1);
    }
}

/// No tag stands between `from` and `to`, so a search from either finds the
/// same.
proof fn lemma_find_eoh_skips(text: Seq<u8>, from: int, to: int)
    requires
        0 <= from <= to <= text.len(),
        forall|j: int| from <= j < to ==> !eoh_at(text, j),
    ensures
        find_eoh(text, from) == find_eoh(text, to),
    decreases to - from,
{
    if from < to {
        lemma_find_eoh_skips(text, from + 1, to);
    }
}

/// The header of a log and its records: a text that starts with `<` is all
/// records and has no header; in any other text the header is what stands
/// before the first tag that ends a header, and the records are what follows
/// the tag. `None` where that tag is missing.
pub open spec fn split(text: Seq<u8>) -> Option<(Option<Seq<u8>>, Seq<u8>)> {
    if text.len() > 0 && text[0] == LESS_THAN {
        Some((None, text))
    } else {
        let at = find_eoh(text, 0);
        if at < text.len() {
            Some((Some(text.subrange(0, at)), text.skip(at + 5)))
        } else {
            None
        }
    }
}

/// A log, split into its header and its records.
#[derive(Debug)]
pub struct Reader<'de> {
    header: Option<&'de str>,
    records: &'de str,
}

impl<'de> Reader<'de> {
    /// The bytes of the header, if the log has one.
    pub closed spec fn header_text(&self) -> Option<Seq<u8>> {
        match self.header {
            Some(header) => Some(header.spec_bytes()),
            None => None,
        }
    }

    /// The bytes of the records.
    pub closed spec fn records_text(&self) -> Seq<u8> {
        self.records.spec_bytes()
    }

    /// Splits a log. Fails with `NoData` where the log neither starts with
    /// a tag nor holds the tag that ends a header.
    pub fn from_str(input: &'de str) -> (r: Result<Self, Error>)
        ensures
            match split(input.spec_bytes()) {
                Some((header, records)) => r matches Ok(reader) && reader.header_text() == header
                    && reader.records_text() == records,
                None => r == Err::<Self, Error>(Error::NoData),
            },
    {
        let bytes = input.as_bytes();
        let ghost text = input.spec_bytes();
        if bytes.len() > 0 && bytes[0] == LESS_THAN {
            return Ok(Reader { header: None, records: input });
        }
        proof {
            lemma_chars_of(input);
            is_char_boundary_start_end_of_seq(text);
        }
        let mut at: usize = find(bytes, LESS_THAN, 0);
        proof {
            lemma_find_from(text, LESS_THAN, 0);
            lemma_find_eoh_skips(text, 0, at as int);
        }
        while at < bytes.len()
            invariant
                bytes@ == text,
                text == input.spec_bytes(),
                valid_utf8(text),
                is_char_boundary(text, 0),
                is_char_boundary(text, text.len() as int),
                at <= text.len(),
                at < text.len() ==> text[at as int] == LESS_THAN,
                find_eoh(text, 0) == find_eoh(text, at as int),
                !(text.len() > 0 && text[0] == LESS_THAN),
            decreases text.len() - at,
        {
            if bytes.len() - at >= 5 && equals_folded(
                vstd::slice::slice_subrange(bytes, at + 1, at + 5),
                "eoh>".as_bytes(),
            ) {
                proof {
                    reveal_strlit("eoh>");
                    is_ascii_spec_bytes("eoh>");
                    let word = lowered(text.subrange(at + 1, at + 5));
                    assert(word[3] == lower(text[at + 4]));
                    lemma_ascii_is_boundary(text, at as int);
                    lemma_ascii_is_boundary(text, at + 4);
                }
                let header = substring(input, 0, at);
                let records = substring(input, at + 5, bytes.len());
                return Ok(Reader { header: Some(header), records });
            }
            let ghost missed = at as int;
            at = find(bytes, LESS_THAN, at + 1);
            proof {
                lemma_find_from(text, LESS_THAN, missed + 1);
                lemma_find_eoh_skips(text, missed + 1, at as int);
            }
        }
        Err(Error::NoData)
    }

    /// The header of the log, if it has one.
    pub fn header(&self) -> (header: Option<&'de str>)
        ensures
            match (header, self.header_text()) {
                (Some(read), Some(text)) => read.spec_bytes() == text,
                (None, None) => true,
                _ => false,
            },
    {
        self.header
    }

    /// The stream of the records, each to be decoded as a `D`. Nothing is
    /// decoded before the stream is asked for an item, so this cannot fail.
    pub fn deserialize<D: Deserialize<'de>>(&self) -> (r: Result<
        DeserializeRecordsIter<'de, D>,
        Error,
    >)
        ensures
            r matches Ok(stream) && stream@ == self.records_text(),
    {
        Ok(DeserializeRecordsIter::new(self.records))
    }
}

/// What a stream of records gives for the outcome of one decoding: the end
/// of the stream for `NoData`, and else the outcome itself.
pub open spec fn yielded<D>(out: Result<D, Error>) -> Option<Result<D, Error>> {
    match out {
        Err(Error::NoData) => None,
        other => Some(other),
    }
}

/// Turns the outcome of one decoding into the item of a stream.
pub fn stream_item<D>(out: Result<D, Error>) -> (item: Option<Result<D, Error>>)
    ensures
        item == yielded(out),
{
    match out {
        Err(Error::NoData) => None,
        other => Some(other),
    }
}

/// The records of a log, decoded one by one as they are asked for.
#[derive(Debug)]
pub struct DeserializeRecordsIter<'de, D> {
    records: &'de str,
    _priv: PhantomData<D>,
}

impl<'de, D> View for DeserializeRecordsIter<'de, D> {
    type V = Seq<u8>;

    /// The input that is left.
    closed spec fn view(&self) -> Seq<u8> {
        self.records.spec_bytes()
    }
}

impl<'de, D> DeserializeRecordsIter<'de, D> {
    /// A stream that starts at the start of `records`.
    pub fn new(records: &'de str) -> (stream: Self)
        ensures
            stream@ == records.spec_bytes(),
    {
        DeserializeRecordsIter { records, _priv: PhantomData }
    }

    /// The input that is left.
    pub fn remaining(&self) -> (rest: &'de str)
        ensures
            rest.spec_bytes() == self@,
    {
        self.records
    }
}

impl<'de, D: Deserialize<'de>> DeserializeRecordsIter<'de, D> {
    /// Decodes the next record with a decoder of its own, which starts
    /// where the last one stopped. `None` ends the stream: the consumer met
    /// the end of the input where it looked for a record.
    pub fn next(&mut self) -> (item: Option<Result<D, Error>>)
        ensures
            exists|out: Result<D, Error>, after: State|
                #![trigger D::decodes(fresh(old(self)@), out, after)]
                D::decodes(fresh(old(self)@), out, after) && final(self)@ == after.text && item
                    == yielded(out),
    {
        let mut deserializer = RecordDeserializer::new(self.records);
        let out = D::deserialize(&mut deserializer);
        self.records = deserializer.remaining();
        stream_item(out)
    }
}

} // verus!
