//! Calendar schedules: when a service that does not run all the time is to
//! be started, and how each service manager writes that down.

use crate::error::ValidationError;
use crate::text::{decimal, join, push_number, push_two_digits, two_digits};
use vstd::prelude::*;

verus! {

/// What a schedule says. A field that is `None` stands for every value.
#[verifier::ext_equal]
pub struct ScheduleModel {
    pub month: Option<u8>,
    pub day: Option<u8>,
    pub weekday: Option<u8>,
    pub hour: Option<u8>,
    pub minute: Option<u8>,
}

/// Whether `field` is absent or lies between `low` and `high`.
pub open spec fn within(field: Option<u8>, low: u8, high: u8) -> bool {
    match field {
        Some(x) => low <= x <= high,
        None => true,
    }
}

/// The three letters that name the weekday `day`, Sunday being 0.
pub open spec fn weekday_name(day: u8) -> Seq<char> {
    if day == 0 {
        "Sun"@
    } else if day == 1 {
        "Mon"@
    } else if day == 2 {
        "Tue"@
    } else if day == 3 {
        "Wed"@
    } else if day == 4 {
        "Thu"@
    } else if day == 5 {
        "Fri"@
    } else {
        "Sat"@
    }
}

/// A field of a calendar expression: two digits, or `*` for every value.
pub open spec fn calendar_field(field: Option<u8>) -> Seq<char> {
    match field {
        Some(x) => two_digits(x as nat),
        None => "*"@,
    }
}

/// The entry of a launchd calendar interval for one field, if it is set.
pub open spec fn interval_entry(key: Seq<char>, field: Option<u8>) -> Seq<(Seq<char>, u8)> {
    match field {
        Some(x) => seq![(key, x)],
        None => Seq::empty(),
    }
}

impl ScheduleModel {
    /// Each field that is set lies in the range of its unit.
    pub open spec fn in_range(self) -> bool {
        &&& within(self.month, 1, 12)
        &&& within(self.day, 1, 31)
        &&& within(self.weekday, 0, 6)
        &&& within(self.hour, 0, 23)
        &&& within(self.minute, 0, 59)
    }

    /// The first field, in the order month, day, weekday, hour, minute, that
    /// is out of its range.
    pub open spec fn violation(self) -> Option<ValidationError> {
        if !within(self.month, 1, 12) {
            Some(ValidationError::MonthOutOfRange)
        } else if !within(self.day, 1, 31) {
            Some(ValidationError::DayOutOfRange)
        } else if !within(self.weekday, 0, 6) {
            Some(ValidationError::WeekdayOutOfRange)
        } else if !within(self.hour, 0, 23) {
            Some(ValidationError::HourOutOfRange)
        } else if !within(self.minute, 0, 59) {
            Some(ValidationError::MinuteOutOfRange)
        } else {
            None
        }
    }

    /// The value of systemd's `OnCalendar=`: the weekday, if set, then
    /// `*-MM-DD HH:MM:00`. An unset minute is the full hour, not every minute.
    pub open spec fn calendar_text(self) -> Seq<char> {
        (match self.weekday {
            Some(w) => weekday_name(w) + " "@,
            None => Seq::empty(),
        }) + "*-"@ + calendar_field(self.month) + "-"@ + calendar_field(self.day) + " "@
            + calendar_field(self.hour) + ":"@ + (match self.minute {
            Some(m) => two_digits(m as nat),
            None => "00"@,
        }) + ":00"@
    }

    /// The entries of launchd's `StartCalendarInterval`: one for each field
    /// that is set, in the order month, day, weekday, hour, minute.
    pub open spec fn interval_entries(self) -> Seq<(Seq<char>, u8)> {
        interval_entry("Month"@, self.month) + interval_entry("Day"@, self.day) + interval_entry(
            "Weekday"@,
            self.weekday,
        ) + interval_entry("Hour"@, self.hour) + interval_entry("Minute"@, self.minute)
    }

    /// The pieces of the summary shown to a user: the weekday, the day of the
    /// month, the time of day.
    pub open spec fn display_parts(self) -> Seq<Seq<char>> {
        (match self.weekday {
            Some(w) => seq![weekday_name(w)],
            None => Seq::empty(),
        }) + (match self.day {
            Some(d) => seq!["day "@ + decimal(d as nat)],
            None => Seq::empty(),
        }) + (match self.hour {
            Some(h) => seq![
                two_digits(h as nat) + ":"@ + two_digits(
                    (match self.minute {
                        Some(m) => m,
                        None => 0u8,
                    }) as nat,
                ),
            ],
            None => Seq::empty(),
        })
    }

    /// The summary shown to a user.
    pub open spec fn display_text(self) -> Seq<char> {
        if self.display_parts().len() == 0 {
            "scheduled"@
        } else {
            join(self.display_parts(), " "@)
        }
    }
}

/// A recurring trigger by the calendar. Each field that is set lies in the
/// range of its unit: months 1 to 12, days 1 to 31, weekdays 0 (Sunday) to 6,
/// hours 0 to 23, minutes 0 to 59.
#[derive(Clone, Copy, Debug, PartialEq, Eq)]
pub struct CalendarSchedule {
    month: Option<u8>,
    day: Option<u8>,
    weekday: Option<u8>,
    hour: Option<u8>,
    minute: Option<u8>,
}

impl View for CalendarSchedule {
    type V = ScheduleModel;

    closed spec fn view(&self) -> ScheduleModel {
        ScheduleModel {
            month: self.month,
            day: self.day,
            weekday: self.weekday,
            hour: self.hour,
            minute: self.minute,
        }
    }
}

/// Whether `field` is absent or lies between `low` and `high`.
fn is_within(field: Option<u8>, low: u8, high: u8) -> (b: bool)
    ensures
        b == within(field, low, high),
{
    match field {
        Some(x) => low <= x && x <= high,
        None => true,
    }
}

/// The three letters that name the weekday `day`.
fn weekday_abbreviation(day: u8) -> (name: &'static str)
    ensures
        name@ == weekday_name(day),
{
    if day == 0 {
        "Sun"
    } else if day == 1 {
        "Mon"
    } else if day == 2 {
        "Tue"
    } else if day == 3 {
        "Wed"
    } else if day == 4 {
        "Thu"
    } else if day == 5 {
        "Fri"
    } else {
        "Sat"
    }
}

/// Appends a field of a calendar expression to `out`.
fn push_calendar_field(out: &mut String, field: Option<u8>)
    ensures
        final(out)@ == old(out)@ + calendar_field(field),
{
    match field {
        Some(x) => push_two_digits(out, x),
        None => out.append("*"),
    }
}

impl CalendarSchedule {
    #[verifier::type_invariant]
    spec fn in_range(self) -> bool {
        self@.in_range()
    }

    /// The schedule with the given fields, or the first of them, in the order
    /// of the parameters, that is out of its range.
    pub fn new(
        month: Option<u8>,
        day: Option<u8>,
        weekday: Option<u8>,
        hour: Option<u8>,
        minute: Option<u8>,
    ) -> (r: Result<CalendarSchedule, ValidationError>)
        ensures
            ({
                let model = ScheduleModel { month, day, weekday, hour, minute };
                match r {
                    Ok(s) => model.in_range() && s@ == model,
                    Err(e) => model.violation() == Some(e),
                }
            }),
    {
        if !is_within(month, 1, 12) {
            Err(ValidationError::MonthOutOfRange)
        } else if !is_within(day, 1, 31) {
            Err(ValidationError::DayOutOfRange)
        } else if !is_within(weekday, 0, 6) {
            Err(ValidationError::WeekdayOutOfRange)
        } else if !is_within(hour, 0, 23) {
            Err(ValidationError::HourOutOfRange)
        } else if !is_within(minute, 0, 59) {
            Err(ValidationError::MinuteOutOfRange)
        } else {
            Ok(CalendarSchedule { month, day, weekday, hour, minute })
        }
    }

    /// The month, 1 to 12, if set.
    pub fn month(&self) -> (m: Option<u8>)
        ensures
            m == self@.month,
            within(m, 1, 12),
    {
        proof {
            use_type_invariant(self);
        }
        self.month
    }

    /// The day of the month, 1 to 31, if set.
    pub fn day(&self) -> (d: Option<u8>)
        ensures
            d == self@.day,
            within(d, 1, 31),
    {
        proof {
            use_type_invariant(self);
        }
        self.day
    }

    /// The weekday, 0 for Sunday to 6 for Saturday, if set.
    pub fn weekday(&self) -> (w: Option<u8>)
        ensures
            w == self@.weekday,
            within(w, 0, 6),
    {
        proof {
            use_type_invariant(self);
        }
        self.weekday
    }

    /// The hour, 0 to 23, if set.
    pub fn hour(&self) -> (h: Option<u8>)
        ensures
            h == self@.hour,
            within(h, 0, 23),
    {
        proof {
            use_type_invariant(self);
        }
        self.hour
    }

    /// The minute, 0 to 59, if set.
    pub fn minute(&self) -> (m: Option<u8>)
        ensures
            m == self@.minute,
            within(m, 0, 59),
    {
        proof {
            use_type_invariant(self);
        }
        self.minute
    }

    /// The schedule as the value of systemd's `OnCalendar=`.
    pub fn to_systemd_calendar_string(&self) -> (out: String)
        ensures
            self@.in_range(),
            out@ == self@.calendar_text(),
    {
        proof {
            use_type_invariant(self);
        }
        let mut out = String::new();
        if let Some(w) = self.weekday {
            out.append(weekday_abbreviation(w));
            out.append(" ");
        }
        assert(out@ =~= (match self@.weekday {
            Some(w) => weekday_name(w) + " "@,
            None => Seq::empty(),
        }));
        out.append("*-");
        push_calendar_field(&mut out, self.month);
        out.append("-");
        push_calendar_field(&mut out, self.day);
        out.append(" ");
        push_calendar_field(&mut out, self.hour);
        out.append(":");
        match self.minute {
            Some(m) => push_two_digits(&mut out, m),
            None => out.append("00"),
        }
        out.append(":00");
        out
    }

    /// The schedule as the entries of launchd's `StartCalendarInterval`.
    pub fn to_launchd_entries(&self) -> (out: Vec<(&'static str, u8)>)
        ensures
            self@.in_range(),
            out.deep_view() == self@.interval_entries(),
    {
        proof {
            use_type_invariant(self);
        }
        let mut out: Vec<(&'static str, u8)> = Vec::new();
        assert(out.deep_view() =~= Seq::empty());
        if let Some(x) = self.month {
            let ghost before = out.deep_view();
            out.push(("Month", x));
            assert(out.deep_view() =~= before + interval_entry("Month"@, self@.month));
        }
        assert(out.deep_view() =~= interval_entry("Month"@, self@.month));
        if let Some(x) = self.day {
            let ghost before = out.deep_view();
            out.push(("Day", x));
            assert(out.deep_view() =~= before + interval_entry("Day"@, self@.day));
        }
        assert(out.deep_view() =~= interval_entry("Month"@, self@.month) + interval_entry(
            "Day"@,
            self@.day,
        ));
        let ghost two = out.deep_view();
        if let Some(x) = self.weekday {
            out.push(("Weekday", x));
            assert(out.deep_view() =~= two + interval_entry("Weekday"@, self@.weekday));
        }
        assert(out.deep_view() =~= two + interval_entry("Weekday"@, self@.weekday));
        let ghost three = out.deep_view();
        if let Some(x) = self.hour {
            out.push(("Hour", x));
            assert(out.deep_view() =~= three + interval_entry("Hour"@, self@.hour));
        }
        assert(out.deep_view() =~= three + interval_entry("Hour"@, self@.hour));
        let ghost four = out.deep_view();
        if let Some(x) = self.minute {
            out.push(("Minute", x));
            assert(out.deep_view() =~= four + interval_entry("Minute"@, self@.minute));
        }
        assert(out.deep_view() =~= four + interval_entry("Minute"@, self@.minute));
        out
    }

    /// The schedule as a few words for a user to read: the weekday, `day N`,
    /// and the time of day, as far as they are set, with a space between each
    /// two; `scheduled` where none of the three is set.
    pub fn display(&self) -> (out: String)
        ensures
            self@.in_range(),
            out@ == self@.display_text(),
    {
        proof {
            use_type_invariant(self);
        }
        let mut out = String::new();
        let ghost mut parts: Seq<Seq<char>> = Seq::empty();
        let mut any = false;
        if let Some(w) = self.weekday {
            out.append(weekday_abbreviation(w));
            any = true;
            proof {
                parts = seq![weekday_name(w)];
                assert(out@ =~= weekday_name(w));
            }
        }
        assert(out@ =~= join(parts, " "@));
        assert(any == (parts.len() > 0));
        if let Some(d) = self.day {
            let ghost before = parts;
            let mut piece = String::new();
            piece.append("day ");
            push_number(&mut piece, d as u32);
            if any {
                out.append(" ");
            }
            out.append(piece.as_str());
            any = true;
            proof {
                parts = before.push("day "@ + decimal(d as nat));
                assert(parts.drop_last() =~= before);
                assert(piece@ =~= "day "@ + decimal(d as nat));
            }
        }
        assert(out@ =~= join(parts, " "@));
        assert(any == (parts.len() > 0));
        if let Some(h) = self.hour {
            let ghost before = parts;
            let mut piece = String::new();
            push_two_digits(&mut piece, h);
            piece.append(":");
            let m: u8 = match self.minute {
                Some(m) => m,
                None => 0,
            };
            push_two_digits(&mut piece, m);
            if any {
                out.append(" ");
            }
            out.append(piece.as_str());
            any = true;
            proof {
                parts = before.push(piece@);
                assert(parts.drop_last() =~= before);
                assert(piece@ =~= two_digits(h as nat) + ":"@ + two_digits(m as nat));
            }
        }
        assert(out@ =~= join(parts, " "@));
        assert(parts =~= self@.display_parts());
        if !any {
            out.append("scheduled");
            assert(out@ =~= "scheduled"@);
        }
        out
    }
}

} // verus!
