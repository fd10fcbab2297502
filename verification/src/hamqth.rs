//! The steps of a query to the callbook service: how many connections may
//! be open at once, what an answer means, and when a session is renewed.

use crate::text::same_text;
use vstd::prelude::*;
use vstd::string::*;

verus! {

/// How many connections to the service may be open at once.
pub const MAX_CONNECTIONS: u8 = 16;

/// The error with which the service says that a session has ended.
pub const EXPIRED: &'static str = "Session does not exist or expired";

/// The error with which the service says that it does not know a callsign.
pub const NOT_FOUND: &'static str = "Callsign not found";

/// What the service answered.
#[derive(Debug, Clone, Copy)]
pub enum Answer<'a> {
    /// The data of the station.
    Search,
    /// A word on the session, with the error that it reports, if any.
    Session(Option<&'a str>),
}

/// Why a query failed.
#[derive(Debug, Clone, Copy, PartialEq, Eq)]
pub enum Failure {
    /// The session was refused as ended though it had been renewed.
    Expired,
    /// The service reported an error that is not known.
    Unrecognized,
    /// The service spoke of the session and reported no error.
    Empty,
}

/// What follows an answer.
#[derive(Debug, Clone, Copy, PartialEq, Eq)]
pub enum Step {
    /// The station was found: its data is the result.
    Found,
    /// The service does not know the callsign.
    NotFound,
    /// The session has ended: it is renewed and the query made again.
    Renew,
    /// The query fails.
    Fail(Failure),
}

/// What is done to renew a session.
#[derive(Debug, Clone, Copy, PartialEq, Eq)]
pub enum Renewal {
    /// Another query has renewed it meanwhile: its id is taken.
    TakeCurrent,
    /// A new session is opened.
    Authenticate,
}

/// The count of open connections with one more, if one more may be opened.
pub fn take_connection(open: u8) -> (r: Option<u8>)
    ensures
        r == if open < MAX_CONNECTIONS {
            Some((open + 1) as u8)
        } else {
            None
        },
{
    if open < MAX_CONNECTIONS {
        Some(open + 1)
    } else {
        None
    }
}

/// What follows an answer, by the rules of the service: an ended session
/// is renewed, but not twice in a row under the same id.
pub open spec fn step_after(answer: Answer<'_>, saved: Option<&str>, session: &str) -> Step {
    match answer {
        Answer::Search => Step::Found,
        Answer::Session(None) => Step::Fail(Failure::Empty),
        Answer::Session(Some(error)) => if error@ == EXPIRED@ {
            match saved {
                Some(id) if id@ == session@ => Step::Fail(Failure::Expired),
                _ => Step::Renew,
            }
        } else if error@ == NOT_FOUND@ {
            Step::NotFound
        } else {
            Step::Fail(Failure::Unrecognized)
        },
    }
}

/// Decides what follows an answer to a query that was made under the
/// session `session`. `saved` is the id of the session that the last
/// renewal gave, if the query has been through one.
pub fn after_answer(answer: Answer<'_>, saved: Option<&str>, session: &str) -> (step: Step)
    ensures
        step == step_after(answer, saved, session),
{
    match answer {
        Answer::Search => Step::Found,
        Answer::Session(None) => Step::Fail(Failure::Empty),
        Answer::Session(Some(error)) => {
            if same_text(error, EXPIRED) {
                let again = match saved {
                    Some(id) => same_text(id, session),
                    None => false,
                };
                if again {
                    Step::Fail(Failure::Expired)
                } else {
                    Step::Renew
                }
            } else if same_text(error, NOT_FOUND) {
                Step::NotFound
            } else {
                Step::Fail(Failure::Unrecognized)
            }
        },
    }
}

/// Decides how a session is renewed: where the session that is current now
/// is no longer the one under which the query was made, it has been renewed
/// already.
pub fn renewal(session: &str, current: &str) -> (how: Renewal)
    ensures
        how == if session@ == current@ {
            Renewal::Authenticate
        } else {
            Renewal::TakeCurrent
        },
{
    if same_text(session, current) {
        Renewal::Authenticate
    } else {
        Renewal::TakeCurrent
    }
}

} // verus!
