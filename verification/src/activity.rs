//! Which minutes of a contest were active: a bit for every minute from the
//! first contact to the last.
//!
//! Time is counted in whole minutes from the earliest time that the caller
//! can tell, so that an activity without contacts starts and ends at 0.

use crate::bits::{bit_limit, bits_of, max_bits, Bits};
use vstd::prelude::*;

verus! {

/// The longest gap, in minutes, that still counts as active.
pub const LONGEST_ACTIVE_GAP: u64 = 10;

/// What an activity holds.
pub struct Span {
    /// The minute of the first bit.
    pub start: u64,
    /// The minute of the last bit.
    pub end: u64,
    /// One bit for each minute from `start` to `end`.
    pub minutes: Seq<bool>,
}

/// Whether each contact is at or after the one before it.
pub open spec fn in_order(contacts: Seq<u64>) -> bool {
    forall|i: int, j: int| 0 <= i <= j < contacts.len() ==> contacts[i] <= contacts[j]
}

/// Whether a contact was made in this minute.
pub open spec fn has_contact(contacts: Seq<u64>, minute: int) -> bool {
    exists|i: int| 0 <= i < contacts.len() && contacts[i] == minute
}

/// Whether this minute lies between two contacts that follow each other
/// with no more than ten minutes from one to the other.
pub open spec fn in_short_gap(contacts: Seq<u64>, minute: int) -> bool {
    exists|i: int|
        0 <= i < contacts.len() - 1 && contacts[i] < minute < #[trigger] contacts[i + 1]
            && contacts[i + 1] - contacts[i] <= LONGEST_ACTIVE_GAP
}

/// Whether this minute counts as active: a contact was made in it, or it
/// lies in a short gap between two contacts.
pub open spec fn active(contacts: Seq<u64>, minute: int) -> bool {
    has_contact(contacts, minute) || in_short_gap(contacts, minute)
}

/// The activity of a list of contacts, oldest first: from the first contact
/// to the last, with a bit for each minute that says whether it was active.
/// With no contacts it is the single inactive minute 0.
pub open spec fn span_of(contacts: Seq<u64>) -> Span {
    if contacts.len() == 0 {
        Span { start: 0, end: 0, minutes: seq![false] }
    } else {
        Span {
            start: contacts.first(),
            end: contacts.last(),
            minutes: Seq::new(
                (contacts.last() - contacts.first() + 1) as nat,
                |k: int| active(contacts, contacts.first() + k),
            ),
        }
    }
}

/// Whether `span` says that `minute` was active; no minute outside of it
/// was.
pub open spec fn active_in(span: Span, minute: int) -> bool {
    span.start <= minute <= span.end && span.minutes[minute - span.start]
}

/// The span moved to start at `start`: inactive minutes are added before it
/// where that is earlier, and minutes are dropped where it is later. `None`
/// where `start` lies after the end, or the span would hold more bits than a
/// bit vector can.
pub open spec fn with_start(span: Span, start: u64) -> Option<Span> {
    if start < span.start {
        if span.start - start + span.minutes.len() <= max_bits() {
            Some(
                Span {
                    start,
                    end: span.end,
                    minutes: Seq::new((span.start - start) as nat, |k: int| false)
                        + span.minutes,
                },
            )
        } else {
            None
        }
    } else if start == span.start {
        Some(span)
    } else if start <= span.end {
        Some(Span { start, end: span.end, minutes: span.minutes.skip(start - span.start) })
    } else {
        None
    }
}

/// The span moved to end at `end`: minutes are dropped from the end where
/// that is earlier, and inactive minutes are added where it is later. `None`
/// where `end` lies before the start, or the span would hold more bits than
/// a bit vector can.
pub open spec fn with_end(span: Span, end: u64) -> Option<Span> {
    if end < span.end {
        if span.start <= end {
            Some(
                Span {
                    start: span.start,
                    end,
                    minutes: span.minutes.take(span.minutes.len() - (span.end - end)),
                },
            )
        } else {
            None
        }
    } else if end == span.end {
        Some(span)
    } else if span.minutes.len() + (end - span.end) <= max_bits() {
        Some(
            Span {
                start: span.start,
                end,
                minutes: span.minutes + Seq::new((end - span.end) as nat, |k: int| false),
            },
        )
    } else {
        None
    }
}

/// Whether a span has one bit for each of its minutes.
pub open spec fn well_formed(span: Span) -> bool {
    span.start <= span.end && span.minutes.len() == span.end - span.start + 1
}

/// The activity of a contest.
#[derive(Debug, PartialEq, Eq)]
pub struct Activity {
    start: u64,
    end: u64,
    minutes: Bits,
}

impl View for Activity {
    type V = Span;

    closed spec fn view(&self) -> Span {
        Span { start: self.start, end: self.end, minutes: bits_of(self.minutes) }
    }
}

impl Activity {
    #[verifier::type_invariant]
    spec fn one_bit_per_minute(self) -> bool {
        well_formed(self@)
    }

    /// The activity of a list of contacts, oldest first, each given by the
    /// minute in which it was made.
    pub fn from_contacts(contacts: &Vec<u64>) -> (activity: Self)
        requires
            in_order(contacts@),
            contacts@.len() > 0 ==> contacts@.last() - contacts@.first() < max_bits(),
        ensures
            activity@ == span_of(contacts@),
    {
        let mut minutes = Bits::new();
        if contacts.len() == 0 {
            minutes.push(false);
            assert(bits_of(minutes) =~= seq![false]);
            return Activity { start: 0, end: 0, minutes };
        }
        let ghost all = contacts@;
        let first: u64 = contacts[0];
        let last: u64 = contacts[contacts.len() - 1];
        let mut i: usize = 0;
        while i < contacts.len() - 1
            invariant
                all == contacts@,
                in_order(all),
                all.len() > 0,
                first == all.first(),
                last == all.last(),
                last - first < max_bits(),
                i < all.len(),
                bits_of(minutes).len() == all[i as int] - first,
                forall|k: int|
                    0 <= k < bits_of(minutes).len() ==> bits_of(minutes)[k] == active(
                        all,
                        first + k,
                    ),
            decreases all.len() - i,
        {
            let from: u64 = contacts[i];
            let to: u64 = contacts[i + 1];
            let ghost before = bits_of(minutes);
            assert(all[0] <= from <= to <= all[all.len() - 1]);
            if to > from {
                let gap: u64 = to - from;
                let short: bool = gap <= LONGEST_ACTIVE_GAP;
                minutes.push(true);
                let length: usize = minutes.len();
                minutes.resize(length + (gap - 1) as usize, short);
                assert forall|k: int| before.len() <= k < bits_of(minutes).len() implies bits_of(
                    minutes,
                )[k] == active(all, first + k) by {
                    let minute = first + k;
                    if minute == from {
                        assert(all[i as int] == minute);
                    } else {
                        assert(from < minute < to);
                        assert(bits_of(minutes)[k] == short);
                        lemma_inside_gap(all, i as int, minute);
                    }
                }
            }
            i = i + 1;
        }
        minutes.push(true);
        assert(all[i as int] == last);
        assert(bits_of(minutes) =~= span_of(all).minutes) by {
            assert(has_contact(all, last as int));
        }
        Activity { start: first, end: last, minutes }
    }

    /// The minute of the first bit.
    pub fn start(&self) -> (minute: u64)
        ensures
            minute == self@.start,
    {
        self.start
    }

    /// The minute of the last bit.
    pub fn end(&self) -> (minute: u64)
        ensures
            minute == self@.end,
            self@.start <= minute,
    {
        proof {
            use_type_invariant(self);
        }
        self.end
    }

    /// How many minutes the activity covers: one more than lie between its
    /// start and its end.
    pub fn len(&self) -> (n: usize)
        ensures
            n == self@.minutes.len(),
            n == self@.end - self@.start + 1,
    {
        proof {
            use_type_invariant(self);
        }
        self.minutes.len()
    }

    /// Whether `minute` was active.
    pub fn is_active(&self, minute: u64) -> (yes: bool)
        ensures
            yes == active_in(self@, minute as int),
    {
        proof {
            use_type_invariant(self);
        }
        let n: usize = self.minutes.len();
        if self.start <= minute && minute <= self.end {
            let at: u64 = minute - self.start;
            assert(at < n);
            self.minutes.get(at as usize)
        } else {
            false
        }
    }

    /// The bits as bytes, 1 for an active minute and 0 for any other.
    pub fn to_bytes(&self) -> (bytes: Vec<u8>)
        ensures
            bytes@.len() == self@.minutes.len(),
            forall|k: int|
                0 <= k < bytes@.len() ==> bytes@[k] == if self@.minutes[k] {
                    1u8
                } else {
                    0u8
                },
    {
        let n: usize = self.minutes.len();
        let mut bytes: Vec<u8> = Vec::with_capacity(n);
        let mut i: usize = 0;
        while i < n
            invariant
                n == bits_of(self.minutes).len(),
                i <= n,
                bytes@.len() == i,
                forall|k: int|
                    0 <= k < i ==> bytes@[k] == if bits_of(self.minutes)[k] {
                        1u8
                    } else {
                        0u8
                    },
            decreases n - i,
        {
            bytes.push(if self.minutes.get(i) { 1 } else { 0 });
            i = i + 1;
        }
        bytes
    }

    /// The activity from `start` to `end` whose bits are given as bytes, any
    /// byte but 0 for an active minute. `None` unless there is one byte for
    /// each minute.
    pub fn from_bytes(start: u64, end: u64, bytes: &[u8]) -> (r: Option<Self>)
        ensures
            match r {
                Some(activity) => {
                    &&& start <= end
                    &&& bytes@.len() == end - start + 1
                    &&& bytes@.len() <= max_bits()
                    &&& activity@ == (Span {
                        start,
                        end,
                        minutes: Seq::new(bytes@.len(), |k: int| bytes@[k] != 0),
                    })
                },
                None => start > end || bytes@.len() != end - start + 1 || bytes@.len()
                    > max_bits(),
            },
    {
        let n: usize = bytes.len();
        if start > end || n == 0 || n > bit_limit() || end - start != (n - 1) as u64 {
            return None;
        }
        let mut minutes = Bits::with_capacity(n);
        let mut i: usize = 0;
        while i < n
            invariant
                n == bytes@.len(),
                n <= max_bits(),
                i <= n,
                bits_of(minutes).len() == i,
                forall|k: int| 0 <= k < i ==> bits_of(minutes)[k] == (bytes@[k] != 0),
            decreases n - i,
        {
            minutes.push(bytes[i] != 0);
            i = i + 1;
        }
        assert(bits_of(minutes) =~= Seq::new(bytes@.len(), |k: int| bytes@[k] != 0));
        Some(Activity { start, end, minutes })
    }

    /// The activity moved to start at `start`.
    pub fn adjust_start(&self, start: u64) -> (r: Option<Self>)
        ensures
            match with_start(self@, start) {
                Some(span) => r matches Some(activity) && activity@ == span,
                None => r is None,
            },
    {
        proof {
            use_type_invariant(self);
        }
        let length: usize = self.minutes.len();
        if start < self.start {
            let more: u64 = self.start - start;
            if more > (bit_limit() - length) as u64 {
                return None;
            }
            let more: usize = more as usize;
            let mut minutes = Bits::with_capacity(more + length);
            minutes.resize(more, false);
            minutes.extend_from_bitslice(&self.minutes);
            assert(bits_of(minutes) =~= Seq::new(more as nat, |k: int| false) + bits_of(
                self.minutes,
            ));
            Some(Activity { start, end: self.end, minutes })
        } else if start == self.start {
            Some(self.clone())
        } else if start <= self.end {
            let fewer: usize = (start - self.start) as usize;
            Some(Activity { start, end: self.end, minutes: self.minutes.tail(fewer) })
        } else {
            None
        }
    }

    /// The activity moved to end at `end`.
    pub fn adjust_end(&self, end: u64) -> (r: Option<Self>)
        ensures
            match with_end(self@, end) {
                Some(span) => r matches Some(activity) && activity@ == span,
                None => r is None,
            },
    {
        proof {
            use_type_invariant(self);
        }
        let length: usize = self.minutes.len();
        if end < self.end {
            if self.start <= end {
                let fewer: usize = (self.end - end) as usize;
                Some(
                    Activity { start: self.start, end, minutes: self.minutes.head(length - fewer) },
                )
            } else {
                None
            }
        } else if end == self.end {
            Some(self.clone())
        } else {
            let more: u64 = end - self.end;
            if more > (bit_limit() - length) as u64 {
                return None;
            }
            let more: usize = more as usize;
            let mut minutes = Bits::with_capacity(length + more);
            minutes.extend_from_bitslice(&self.minutes);
            minutes.resize(length + more, false);
            assert(bits_of(minutes) =~= bits_of(self.minutes) + Seq::new(
                more as nat,
                |k: int| false,
            ));
            Some(Activity { start: self.start, end, minutes })
        }
    }
}

/// Why a window of time was refused.
#[derive(Debug, Clone, Copy, PartialEq, Eq)]
pub enum WindowError {
    /// A length was given with both ends of the window, or with neither.
    InvalidCombination,
    /// The activity could not be made to start at this minute.
    Start(u64),
    /// The activity could not be made to end at this minute.
    End(u64),
}

/// The ends of a window that is given by any of its start, its end and its
/// length in minutes: a length with one end gives the other end, a length
/// with both or with neither is refused, and without a length the ends stay
/// as they are.
pub open spec fn window_of(start: Option<u64>, end: Option<u64>, length: Option<u32>) -> Result<
    (Option<int>, Option<int>),
    WindowError,
> {
    match (start, end, length) {
        (None, None, Some(_)) => Err(WindowError::InvalidCombination),
        (Some(_), Some(_), Some(_)) => Err(WindowError::InvalidCombination),
        (Some(s), None, Some(n)) => Ok((Some(s as int), Some(s + n))),
        (None, Some(e), Some(n)) => Ok((Some(e - n), Some(e as int))),
        (Some(s), Some(e), None) => Ok((Some(s as int), Some(e as int))),
        (Some(s), None, None) => Ok((Some(s as int), None)),
        (None, Some(e), None) => Ok((None, Some(e as int))),
        (None, None, None) => Ok((None, None)),
    }
}

/// Works out the ends of a window. A window that would start before minute
/// 0, or end after the last minute that can be counted, is left out.
pub fn window(start: Option<u64>, end: Option<u64>, length: Option<u32>) -> (r: Result<
    (Option<u64>, Option<u64>),
    WindowError,
>)
    requires
        match (start, length) {
            (Some(s), Some(n)) => s + n <= u64::MAX,
            _ => true,
        },
        match (end, length) {
            (Some(e), Some(n)) => e >= n,
            _ => true,
        },
    ensures
        match window_of(start, end, length) {
            Err(e) => r == Err::<(Option<u64>, Option<u64>), WindowError>(e),
            Ok((from, to)) => r matches Ok((first, last)) && (match (from, first) {
                (Some(a), Some(b)) => a == b,
                (None, None) => true,
                _ => false,
            }) && (match (to, last) {
                (Some(a), Some(b)) => a == b,
                (None, None) => true,
                _ => false,
            }),
        },
{
    match (start, end, length) {
        (None, None, Some(_)) => Err(WindowError::InvalidCombination),
        (Some(_), Some(_), Some(_)) => Err(WindowError::InvalidCombination),
        (Some(s), None, Some(n)) => Ok((Some(s), Some(s + n as u64))),
        (None, Some(e), Some(n)) => Ok((Some(e - n as u64), Some(e))),
        (start, end, None) => Ok((start, end)),
    }
}

/// The span cut to a window: moved to the start of the window if it has
/// one, and then to its end if it has one. The error names the end that
/// could not be set.
pub open spec fn cut(span: Span, start: Option<u64>, end: Option<u64>) -> Result<
    Span,
    WindowError,
> {
    let moved = match start {
        Some(s) => with_start(span, s),
        None => Some(span),
    };
    match moved {
        None => Err(WindowError::Start(start->0)),
        Some(from) => match end {
            None => Ok(from),
            Some(e) => match with_end(from, e) {
                None => Err(WindowError::End(e)),
                Some(both) => Ok(both),
            },
        },
    }
}

impl Activity {
    /// The activity cut to a window.
    pub fn restrict(self, start: Option<u64>, end: Option<u64>) -> (r: Result<Self, WindowError>)
        ensures
            match cut(self@, start, end) {
                Ok(span) => r matches Ok(activity) && activity@ == span,
                Err(e) => r == Err::<Self, WindowError>(e),
            },
    {
        let mut activity = self;
        if let Some(s) = start {
            match activity.adjust_start(s) {
                Some(moved) => {
                    activity = moved;
                },
                None => {
                    return Err(WindowError::Start(s));
                },
            }
        }
        if let Some(e) = end {
            match activity.adjust_end(e) {
                Some(moved) => {
                    activity = moved;
                },
                None => {
                    return Err(WindowError::End(e));
                },
            }
        }
        Ok(activity)
    }
}

impl Clone for Activity {
    fn clone(&self) -> (copy: Self)
        ensures
            copy@ == self@,
    {
        proof {
            use_type_invariant(self);
        }
        Activity { start: self.start, end: self.end, minutes: self.minutes.copy() }
    }
}

/// The activity of contacts in order has one bit for each of its minutes.
pub proof fn lemma_span_of_is_well_formed(contacts: Seq<u64>)
    requires
        in_order(contacts),
    ensures
        well_formed(span_of(contacts)),
{
    if contacts.len() > 0 {
        assert(contacts[0] <= contacts[contacts.len() - 1]);
    }
}

/// Moving the start of a span keeps it well formed and changes no minute
/// that stays inside: a minute is active after the move exactly if it was
/// active before and does not lie before the new start.
pub proof fn lemma_with_start_keeps_minutes(span: Span, start: u64, minute: int)
    requires
        well_formed(span),
        with_start(span, start) is Some,
    ensures
        well_formed(with_start(span, start)->0),
        active_in(with_start(span, start)->0, minute) == (start <= minute && active_in(
            span,
            minute,
        )),
{
}

/// Moving the end of a span keeps it well formed and changes no minute that
/// stays inside: a minute is active after the move exactly if it was active
/// before and does not lie after the new end.
pub proof fn lemma_with_end_keeps_minutes(span: Span, end: u64, minute: int)
    requires
        well_formed(span),
        with_end(span, end) is Some,
    ensures
        well_formed(with_end(span, end)->0),
        active_in(with_end(span, end)->0, minute) == (minute <= end && active_in(span, minute)),
{
}

/// Inside the gap between two contacts that follow each other, no contact
/// was made, and the minute is active exactly if that gap is short.
proof fn lemma_inside_gap(contacts: Seq<u64>, i: int, minute: int)
    requires
        in_order(contacts),
        0 <= i < contacts.len() - 1,
        contacts[i] < minute < contacts[i + 1],
    ensures
        active(contacts, minute) == (contacts[i + 1] - contacts[i] <= LONGEST_ACTIVE_GAP),
{
    assert forall|j: int| 0 <= j < contacts.len() implies contacts[j] != minute by {
        if j <= i {
            assert(contacts[j] <= contacts[i]);
        } else {
            assert(contacts[i + 1] <= contacts[j]);
        }
    }
    assert forall|j: int|
        0 <= j < contacts.len() - 1 && contacts[j] < minute < #[trigger] contacts[j + 1] implies j
        == i by {
        if j < i {
            assert(contacts[j + 1] <= contacts[i]);
        } else if j > i {
            assert(contacts[i + 1] <= contacts[j]);
        }
    }
}

} // verus!
