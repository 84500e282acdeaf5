//! Moments in local time.

use vstd::prelude::*;
use crate::chars::{digit_char, digit_of};

verus! {

/// A moment and the offset of local time from UTC at that moment.
#[derive(Debug, Clone, Copy)]
pub struct EventTime {
    /// Whole seconds since the start of 1970 in UTC.
    pub seconds: i64,
    /// Nanoseconds past the whole second; a billion and more within a leap second.
    pub nanos: u32,
    /// What to add to UTC to get local time, in seconds.
    pub offset: i32,
}

/// Two moments are the same whatever offset they are told in.
impl PartialEq for EventTime {
    fn eq(&self, other: &Self) -> (r: bool) {
        self.seconds == other.seconds && self.nanos == other.nanos
    }
}

impl vstd::std_specs::cmp::PartialEqSpecImpl for EventTime {
    open spec fn obeys_eq_spec() -> bool {
        true
    }

    open spec fn eq_spec(&self, other: &Self) -> bool {
        self.seconds == other.seconds && self.nanos == other.nanos
    }
}

impl Eq for EventTime {

}

/// The text of chrono's `DateTime::to_rfc3339` for a moment and an offset; nothing where chrono
/// cannot hold the moment or the offset.
pub uninterp spec fn rfc3339_text(seconds: int, nanos: int, offset: int) -> Option<Seq<char>>;

/// `chrono::DateTime::to_rfc3339`, of the moment that `DateTime::from_timestamp` makes, in the
/// zone that `FixedOffset::east_opt` makes. The claim: the text depends on the three numbers alone,
/// and it is missing only where one of the two last functions refuses its numbers.
#[verifier::external_body]
fn chrono_rfc3339(seconds: i64, nanos: u32, offset: i32) -> (r: Option<String>)
    ensures
        match r {
            Some(text) => rfc3339_text(seconds as int, nanos as int, offset as int) == Some(text@),
            None => rfc3339_text(seconds as int, nanos as int, offset as int) is None,
        },
{
    let zone = chrono::FixedOffset::east_opt(offset)?;
    let moment = chrono::DateTime::from_timestamp(seconds, nanos)?;
    Some(moment.with_timezone(&zone).to_rfc3339())
}

/// `chrono::Local::now`: the moment of the call in local time. The claim: the offset is below a day
/// on either side, the nanoseconds are below two seconds, and chrono can write the moment out.
#[verifier::external_body]
fn chrono_now() -> (r: EventTime)
    ensures
        -86_400 < r.offset < 86_400,
        r.nanos < 2_000_000_000,
        rfc3339_text(r.seconds as int, r.nanos as int, r.offset as int) is Some,
{
    let now = chrono::Local::now();
    EventTime {
        seconds: now.timestamp(),
        nanos: now.timestamp_subsec_nanos(),
        offset: now.offset().local_minus_utc(),
    }
}

/// Two decimal digits for a number below a hundred.
pub open spec fn two_digits(n: nat) -> Seq<char> {
    seq![digit_of(n / 10), digit_of(n % 10)]
}

fn push_two_digits(out: &mut String, n: u8)
    requires
        n < 100,
    ensures
        final(out)@ == old(out)@ + two_digits(n as nat),
{
    out.push(digit_char(n / 10));
    out.push(digit_char(n % 10));
    assert(out@ =~= old(out)@ + two_digits(n as nat));
}

/// The hour, minute and second of local time as `HH:MM:SS`. A leap second is the second number 60.
pub open spec fn clock_of(time: EventTime) -> Seq<char> {
    let day = (time.seconds + time.offset) % 86_400;
    let extra: int = if time.nanos >= 1_000_000_000 {
        1
    } else {
        0
    };
    two_digits((day / 3600) as nat) + seq![':'] + two_digits((day / 60 % 60) as nat) + seq![':']
        + two_digits((day % 60 + extra) as nat)
}

impl EventTime {
    /// The moment of the call.
    pub fn now() -> (r: Self)
        ensures
            -86_400 < r.offset < 86_400,
            r.nanos < 2_000_000_000,
            rfc3339_text(r.seconds as int, r.nanos as int, r.offset as int) is Some,
    {
        chrono_now()
    }

    /// The moment as RFC 3339 writes it.
    pub fn rfc3339(&self) -> (r: Option<String>)
        ensures
            match r {
                Some(text) => rfc3339_text(
                    self.seconds as int,
                    self.nanos as int,
                    self.offset as int,
                ) == Some(text@),
                None => rfc3339_text(
                    self.seconds as int,
                    self.nanos as int,
                    self.offset as int,
                ) is None,
            },
    {
        chrono_rfc3339(self.seconds, self.nanos, self.offset)
    }

    /// The hour, minute and second of local time as `HH:MM:SS`.
    pub fn clock(&self) -> (r: String)
        ensures
            r@ == clock_of(*self),
    {
        let local: i128 = self.seconds as i128 + self.offset as i128;
        let rest: i128 = local % 86_400;
        let day: u32 = if rest < 0 {
            (rest + 86_400) as u32
        } else {
            rest as u32
        };
        assert(day == (self.seconds + self.offset) % 86_400);
        let extra: u8 = if self.nanos >= 1_000_000_000 {
            1
        } else {
            0
        };
        let mut out = String::new();
        push_two_digits(&mut out, (day / 3600) as u8);
        out.push(':');
        push_two_digits(&mut out, (day / 60 % 60) as u8);
        out.push(':');
        push_two_digits(&mut out, (day % 60) as u8 + extra);
        assert(out@ =~= clock_of(*self));
        out
    }
}

} // verus!
