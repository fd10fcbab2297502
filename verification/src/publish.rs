//! When the newest contact is sent to those who watch for it.
//!
//! A contact is known here by its id, which it may lack.

use crate::text::same_text;
use vstd::prelude::*;
use vstd::string::*;

verus! {

/// Whether two ids are the same: both missing, or both there with the same
/// text.
pub open spec fn same_id(one: Option<&str>, other: Option<&str>) -> bool {
    match (one, other) {
        (None, None) => true,
        (Some(a), Some(b)) => a@ == b@,
        _ => false,
    }
}

/// Whether a change can be passed over without a look at the store: it
/// cannot have changed which contact is the newest, and it was made to a
/// contact that is known not to be the one that was sent last.
pub open spec fn passes_over(
    updated: Option<&str>,
    last: Option<Option<&str>>,
    could_change_first: bool,
) -> bool {
    match (updated, last) {
        (Some(changed), Some(Some(id))) => !could_change_first && changed@ != id@,
        _ => false,
    }
}

/// Whether the newest contact of the store is sent after a change: not
/// where there is none and none was sent before, and not where it is the one
/// that was sent last and the change cannot have altered it.
pub open spec fn sends(
    last: Option<Option<&str>>,
    newest: Option<Option<&str>>,
    could_update_value: bool,
) -> bool {
    match (last, newest) {
        (None, None) => false,
        (Some(sent), Some(found)) => could_update_value || !same_id(sent, found),
        _ => true,
    }
}

/// Compares two ids.
pub fn ids_match(one: Option<&str>, other: Option<&str>) -> (same: bool)
    ensures
        same == same_id(one, other),
{
    match (one, other) {
        (None, None) => true,
        (Some(a), Some(b)) => same_text(a, b),
        _ => false,
    }
}

/// Decides, before the store is asked for its newest contact, whether the
/// change to the contact `updated` can be passed over. `last` is the contact
/// that was sent last, if any was.
pub fn skips_publish(
    updated: Option<&str>,
    last: Option<Option<&str>>,
    could_change_first: bool,
) -> (skip: bool)
    ensures
        skip == passes_over(updated, last, could_change_first),
{
    if could_change_first {
        return false;
    }
    match (updated, last) {
        (Some(changed), Some(Some(id))) => !same_text(changed, id),
        _ => false,
    }
}

/// Decides, once the store has given its newest contact, whether that
/// contact is sent.
pub fn should_publish(
    last: Option<Option<&str>>,
    newest: Option<Option<&str>>,
    could_update_value: bool,
) -> (send: bool)
    ensures
        send == sends(last, newest, could_update_value),
{
    match (last, newest) {
        (None, None) => false,
        (Some(sent), Some(found)) => could_update_value || !ids_match(sent, found),
        _ => true,
    }
}

/// Whether a write to the store is announced: it was asked for, and it
/// changed at least one row.
pub fn announces(publish: bool, rows: usize) -> (yes: bool)
    ensures
        yes == (publish && rows > 0),
{
    publish && rows > 0
}

} // verus!
