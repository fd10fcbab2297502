//! Where the place of a contacted station is known from, and what is to be
//! done to learn it.

use crate::text::same_text;
use vstd::prelude::*;
use vstd::string::*;

verus! {

/// Where the place of a contacted station is known from.
#[derive(Debug, Clone, Copy, PartialEq, Eq)]
pub enum LocationSource {
    /// It is not known.
    NoLocation,
    /// From the prefix of the callsign.
    Prefix,
    /// From the callbook service.
    HamQTH,
}

/// What is to be done for the place of a contact that was stored.
#[derive(Debug, Clone, Copy, PartialEq, Eq)]
pub enum LocationStep {
    /// Ask the callbook service, and take the prefix if it has no answer.
    Lookup,
    /// Take the prefix.
    FromPrefix,
    /// Nothing: the place is known.
    Nothing,
}

impl LocationSource {
    /// The name under which the source is stored.
    pub open spec fn name(self) -> &'static str {
        match self {
            LocationSource::NoLocation => "NoLocation",
            LocationSource::Prefix => "Prefix",
            LocationSource::HamQTH => "HamQTH",
        }
    }

    /// The name under which the source is stored.
    pub fn as_str(&self) -> (name: &'static str)
        ensures
            name == self.name(),
    {
        match self {
            LocationSource::NoLocation => "NoLocation",
            LocationSource::Prefix => "Prefix",
            LocationSource::HamQTH => "HamQTH",
        }
    }

    /// The source that is stored under `name`, if it is the name of one.
    pub fn from_name(name: &str) -> (source: Option<Self>)
        ensures
            match source {
                Some(source) => name@ == source.name()@,
                None => forall|any: LocationSource| name@ != any.name()@,
            },
    {
        proof {
            reveal_strlit("NoLocation");
            reveal_strlit("Prefix");
            reveal_strlit("HamQTH");
        }
        if same_text(name, "NoLocation") {
            Some(LocationSource::NoLocation)
        } else if same_text(name, "Prefix") {
            Some(LocationSource::Prefix)
        } else if same_text(name, "HamQTH") {
            Some(LocationSource::HamQTH)
        } else {
            None
        }
    }
}

/// What was stored of a contact under its id before it is written again:
/// the source of its place, if the contact is still with the same station.
/// A contact that is new, or that has changed its station, has none.
pub fn kept_source(stored: Option<(&str, LocationSource)>, callsign: &str) -> (kept: Option<
    LocationSource,
>)
    ensures
        kept == match stored {
            Some((station, source)) if station@ == callsign@ => Some(source),
            _ => None,
        },
{
    match stored {
        Some((station, source)) => if same_text(station, callsign) {
            Some(source)
        } else {
            None
        },
        None => None,
    }
}

/// What is to be done for the place of a contact, given the source that was
/// kept for it: a contact without a kept source is looked up, one whose
/// place is unknown gets it from the prefix, and any other is left alone.
pub fn location_step(kept: Option<LocationSource>) -> (step: LocationStep)
    ensures
        step == match kept {
            None => LocationStep::Lookup,
            Some(LocationSource::NoLocation) => LocationStep::FromPrefix,
            Some(_) => LocationStep::Nothing,
        },
{
    match kept {
        None => LocationStep::Lookup,
        Some(LocationSource::NoLocation) => LocationStep::FromPrefix,
        Some(LocationSource::Prefix) => LocationStep::Nothing,
        Some(LocationSource::HamQTH) => LocationStep::Nothing,
    }
}

/// Whether the prefix is to be tried after the callbook service: always but
/// where the service answered with a place.
pub fn falls_back_to_prefix<E>(answer: &Result<bool, E>) -> (yes: bool)
    ensures
        yes == !(answer matches Ok(true)),
{
    match answer {
        Ok(found) => !*found,
        Err(_) => true,
    }
}

} // verus!
