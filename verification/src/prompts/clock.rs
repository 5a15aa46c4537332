//! The local time as the instructions of the system give it.

use crate::text::digit_spec;
use vstd::prelude::*;
use vstd::string::*;

verus! {

/// A moment with the difference of the local time to the universal one. Both
/// are in seconds, the moment since 1970.
#[derive(Clone, Copy, Debug, PartialEq, Eq, Structural)]
pub struct LocalTimeSnapshot {
    pub secs: i64,
    pub offset: i32,
}

/// The first moment with a date: the beginning of the year 262144 BCE.
pub const FIRST_SECOND: i64 = -8_334_601_228_800;

/// The last moment with a date: the end of the year 262142 CE.
pub const LAST_SECOND: i64 = 8_210_266_876_799;

/// The moments that have a date.
pub open spec fn has_date(secs: int) -> bool {
    FIRST_SECOND <= secs <= LAST_SECOND
}

/// A difference of less than a day.
pub open spec fn is_offset(offset: int) -> bool {
    -86400 < offset < 86400
}

/// Two digits.
pub open spec fn two_digits(n: nat) -> Seq<char> {
    seq![digit_spec(n / 10 % 10), digit_spec(n % 10)]
}

/// The seconds since midnight, local time.
pub open spec fn second_of_day(secs: int, offset: int) -> nat {
    ((secs + offset) % 86400) as nat
}

/// Hours and minutes.
pub open spec fn clock_text(secs: int, offset: int) -> Seq<char> {
    two_digits(second_of_day(secs, offset) / 3600) + ":"@ + two_digits(
        second_of_day(secs, offset) / 60 % 60,
    )
}

/// The minutes of a difference, rounded.
pub open spec fn offset_minutes(offset: int) -> nat {
    ((if offset < 0 {
        -offset
    } else {
        offset
    } + 30) / 60) as nat
}

/// A difference in hours and minutes.
pub open spec fn offset_text(offset: int) -> Seq<char> {
    (if offset < 0 {
        "-"@
    } else {
        "+"@
    }) + two_digits(offset_minutes(offset) / 60) + ":"@ + two_digits(offset_minutes(offset) % 60)
}

/// The date of a moment as `chrono` writes it with the pattern `%Y-%m-%d`.
pub uninterp spec fn date_text(secs: int, offset: int) -> Seq<char>;

/// The date, hours and minutes, and the difference.
pub open spec fn label_text(secs: int, offset: int) -> Seq<char> {
    date_text(secs, offset) + " "@ + clock_text(secs, offset) + " "@ + offset_text(offset)
}

/// Calls `chrono`'s `DateTime::format` on the moment in the fixed time zone. The
/// date depends on moment and zone alone and stays unsaid; the hours, the
/// minutes and the difference are as stated.
#[verifier::external_body]
fn format_local(secs: i64, offset: i32, pattern: &str) -> (r: String)
    requires
        has_date(secs as int),
        is_offset(offset as int),
        pattern@ == "%Y-%m-%d"@ || pattern@ == "%H:%M"@ || pattern@ == "%Y-%m-%d %H:%M %:z"@,
    ensures
        pattern@ == "%Y-%m-%d"@ ==> r@ == date_text(secs as int, offset as int),
        pattern@ == "%H:%M"@ ==> r@ == clock_text(secs as int, offset as int),
        pattern@ == "%Y-%m-%d %H:%M %:z"@ ==> r@ == label_text(secs as int, offset as int),
{
    let zone = chrono::FixedOffset::east_opt(offset).unwrap();
    let moment = chrono::DateTime::from_timestamp(secs, 0).unwrap();
    moment.with_timezone(&zone).format(pattern).to_string()
}

impl LocalTimeSnapshot {
    /// The moment has a date.
    pub open spec fn wf(self) -> bool {
        has_date(self.secs as int) && is_offset(self.offset as int)
    }

    /// The moment, where it has a date.
    pub fn from_datetime(secs: i64, offset: i32) -> (r: Option<LocalTimeSnapshot>)
        ensures
            r == (if has_date(secs as int) && is_offset(offset as int) {
                Some(LocalTimeSnapshot { secs, offset })
            } else {
                None
            }),
            r is Some ==> r->0.wf(),
    {
        if secs >= FIRST_SECOND && secs <= LAST_SECOND && offset > -86400 && offset < 86400 {
            Some(LocalTimeSnapshot { secs, offset })
        } else {
            None
        }
    }

    /// The date.
    pub fn today(self) -> (r: String)
        requires
            self.wf(),
        ensures
            r@ == date_text(self.secs as int, self.offset as int),
    {
        format_local(self.secs, self.offset, "%Y-%m-%d")
    }

    /// Whether the day before has a date.
    pub fn has_yesterday(self) -> (r: bool)
        requires
            self.wf(),
        ensures
            r == has_date(self.secs - 86400),
    {
        self.secs >= FIRST_SECOND + 86400
    }

    /// The date a day earlier.
    pub fn yesterday(self) -> (r: String)
        requires
            self.wf(),
            has_date(self.secs - 86400),
        ensures
            r@ == date_text(self.secs - 86400, self.offset as int),
    {
        format_local(self.secs - 86400, self.offset, "%Y-%m-%d")
    }

    /// Hours and minutes.
    pub fn hhmm(self) -> (r: String)
        requires
            self.wf(),
        ensures
            r@ == clock_text(self.secs as int, self.offset as int),
    {
        format_local(self.secs, self.offset, "%H:%M")
    }

    /// The date, hours and minutes, and the difference to the universal time.
    pub fn datetime_label(self) -> (r: String)
        requires
            self.wf(),
        ensures
            r@ == label_text(self.secs as int, self.offset as int),
    {
        format_local(self.secs, self.offset, "%Y-%m-%d %H:%M %:z")
    }
}

/// Yesterday at the same time the clock showed the same hours and minutes.
pub proof fn law_same_clock_yesterday(secs: int, offset: int)
    ensures
        clock_text(secs - 86400, offset) == clock_text(secs, offset),
{
    assert((secs - 86400 + offset) % 86400 == (secs + offset) % 86400) by {
        vstd::arithmetic::div_mod::lemma_mod_sub_multiples_vanish(secs + offset, 86400);
    }
    assert(secs - 86400 + offset == secs + offset - 86400);
}

} // verus!
