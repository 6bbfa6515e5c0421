//! The moment at which a task is due.
use vstd::prelude::*;

verus! {

/// What a [`Due`] stands for: a moment on the UTC time line, and the offset
/// of the local clock that it is shown in.
pub struct Moment {
    /// Whole seconds since 1970-01-01 00:00:00 UTC.
    pub secs: int,
    /// Nanoseconds past that second.
    pub nanos: int,
    /// Seconds that the local clock is ahead of UTC.
    pub offset: int,
}

impl Moment {
    /// Whether this moment is earlier than `other` on the time line. The
    /// offsets play no part in it.
    pub open spec fn before(self, other: Moment) -> bool {
        self.secs < other.secs || (self.secs == other.secs && self.nanos < other.nanos)
    }

    /// The text of this moment: date, time of day and offset.
    pub open spec fn text(self) -> Seq<char> {
        due_text(self.secs, self.nanos, self.offset).unwrap()
    }
}

/// The text that `chrono` prints for the moment `secs` seconds and `nanos`
/// nanoseconds after the epoch, on a clock `offset` seconds east of UTC;
/// `None` where `chrono` has no date-time or no offset for these numbers.
pub uninterp spec fn due_text(secs: int, nanos: int, offset: int) -> Option<Seq<char>>;

/// Builds the date-time with `chrono::DateTime::from_timestamp`, the offset
/// with `chrono::FixedOffset::east_opt`, moves the first to the second with
/// `DateTime::with_timezone` and prints it with `to_string`. Either of the
/// first two may refuse its numbers, and then there is no text. The result
/// depends on the three numbers alone; the contract only gives it its name.
#[verifier::external_body]
fn chrono_text(secs: i64, nanos: u32, offset: i32) -> (text: Option<String>)
    ensures
        match text {
            Some(t) => due_text(secs as int, nanos as int, offset as int) == Some(t@),
            None => due_text(secs as int, nanos as int, offset as int) is None,
        },
{
    let utc = chrono::DateTime::from_timestamp(secs, nanos)?;
    let zone = chrono::FixedOffset::east_opt(offset)?;
    Some(utc.with_timezone(&zone).to_string())
}

/// The moment that `chrono` finds by adding `wait_secs` seconds and
/// `wait_nanos` nanoseconds to the moment `secs` seconds and `nanos`
/// nanoseconds after the epoch, as seconds and nanoseconds after the epoch;
/// `None` where `chrono` has no date-time for the start, no span of time
/// that long, or no date-time for the end.
pub uninterp spec fn instant_after(secs: int, nanos: int, wait_secs: int, wait_nanos: int) -> Option<
    (int, int),
>;

/// Builds the start with `chrono::DateTime::from_timestamp` and the span
/// with `chrono::TimeDelta::from_std`, adds them with
/// `DateTime::checked_add_signed`, and reads the end with
/// `DateTime::timestamp` and `DateTime::timestamp_subsec_nanos`. Each of the
/// first three may refuse, and then there is no end. `wait_nanos` is below a
/// second, as `std::time::Duration::new` wants it. The result depends on the
/// four numbers alone; the contract only gives it its name.
#[verifier::external_body]
fn chrono_after(secs: i64, nanos: u32, wait_secs: u64, wait_nanos: u32) -> (end: Option<(i64, u32)>)
    requires
        wait_nanos < 1_000_000_000,
    ensures
        match end {
            Some(at) => instant_after(secs as int, nanos as int, wait_secs as int, wait_nanos as int)
                == Some((at.0 as int, at.1 as int)),
            None => instant_after(secs as int, nanos as int, wait_secs as int, wait_nanos as int)
                is None,
        },
{
    let start = chrono::DateTime::from_timestamp(secs, nanos)?;
    let wait = chrono::TimeDelta::from_std(std::time::Duration::new(wait_secs, wait_nanos)).ok()?;
    let end = start.checked_add_signed(wait)?;
    Some((end.timestamp(), end.timestamp_subsec_nanos()))
}

/// The moment that lies `wait_secs` seconds and `wait_nanos` nanoseconds
/// after the moment `secs` seconds and `nanos` nanoseconds after the epoch,
/// as seconds and nanoseconds after the epoch. There is none where
/// `wait_nanos` is a second or more, nor where `chrono` finds none.
pub fn due_after(secs: i64, nanos: u32, wait_secs: u64, wait_nanos: u32) -> (end: Option<(i64, u32)>)
    ensures
        match end {
            Some(at) => wait_nanos < 1_000_000_000 && instant_after(
                secs as int,
                nanos as int,
                wait_secs as int,
                wait_nanos as int,
            ) == Some((at.0 as int, at.1 as int)),
            None => wait_nanos >= 1_000_000_000 || instant_after(
                secs as int,
                nanos as int,
                wait_secs as int,
                wait_nanos as int,
            ) is None,
        },
{
    if wait_nanos < 1_000_000_000 {
        chrono_after(secs, nanos, wait_secs, wait_nanos)
    } else {
        None
    }
}

/// A due moment that `chrono` can represent.
#[derive(Clone, Copy, Debug, PartialEq, Eq)]
pub struct Due {
    secs: i64,
    nanos: u32,
    offset: i32,
}

impl View for Due {
    type V = Moment;

    closed spec fn view(&self) -> Moment {
        Moment { secs: self.secs as int, nanos: self.nanos as int, offset: self.offset as int }
    }
}

impl Due {
    #[verifier::type_invariant]
    spec fn representable(self) -> bool {
        due_text(self.secs as int, self.nanos as int, self.offset as int) is Some
    }

    /// The due moment with these numbers, where `chrono` has one.
    pub fn new(secs: i64, nanos: u32, offset: i32) -> (due: Option<Due>)
        ensures
            due is Some <==> due_text(secs as int, nanos as int, offset as int) is Some,
            due matches Some(d) ==> d@ == (Moment {
                secs: secs as int,
                nanos: nanos as int,
                offset: offset as int,
            }),
    {
        match chrono_text(secs, nanos, offset) {
            Some(_) => Some(Due { secs, nanos, offset }),
            None => None,
        }
    }

    /// Whole seconds since the epoch.
    pub fn secs(&self) -> (secs: i64)
        ensures
            secs == self@.secs,
    {
        self.secs
    }

    /// Nanoseconds past the whole second.
    pub fn nanos(&self) -> (nanos: u32)
        ensures
            nanos == self@.nanos,
    {
        self.nanos
    }

    /// Seconds that the local clock is ahead of UTC.
    pub fn offset(&self) -> (offset: i32)
        ensures
            offset == self@.offset,
    {
        self.offset
    }

    /// Whether this moment is earlier than `other`.
    pub fn before(&self, other: &Due) -> (earlier: bool)
        ensures
            earlier == self@.before(other@),
    {
        self.secs < other.secs || (self.secs == other.secs && self.nanos < other.nanos)
    }

    /// The text of this moment, as it stands in a task's line.
    pub fn label(&self) -> (text: String)
        ensures
            text@ == self@.text(),
            due_text(self@.secs, self@.nanos, self@.offset) is Some,
    {
        proof {
            use_type_invariant(self);
        }
        chrono_text(self.secs, self.nanos, self.offset).unwrap()
    }
}

} // verus!
