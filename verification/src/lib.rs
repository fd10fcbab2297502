//! Decoding of amateur-radio logs written in ADIF, a text format in which
//! every field is announced by a tag that gives its name and its length in
//! bytes, and the rules of a contest dashboard that is fed by such logs.
//!
//! A log is split by `reader::Reader` into its header and its records. The
//! records are decoded one by one: `decoder::RecordDeserializer` reads the
//! tags and hands out keys and values, and a consumer, any type with
//! `record::Deserialize`, asks it for what it needs. `laws` holds what is
//! proved of every input.
//!
//! The dashboard has a signal report (`rst`), the minutes in which a contest
//! was active (`activity`), the place of a station (`location`, `prefix`,
//! `hamqth`), the forms of a broadcast (`n1mm`) and the rule by which news is
//! sent on (`publish`).

pub mod activity;
pub mod bits;
pub mod decoder;
pub mod error;
pub mod hamqth;
pub mod laws;
pub mod location;
pub mod n1mm;
pub mod number;
pub mod prefix;
pub mod publish;
pub mod reader;
pub mod record;
pub mod rst;
pub mod specifier;
pub mod text;
