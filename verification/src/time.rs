//! Timestamps as the reader sees them: the offset of the time zone, the
//! calendar date that `datetime` works out, and the layout of a date.

use vstd::prelude::*;
use crate::text::{decimal, decimal_text};

verus! {

/// From `at` on (in seconds since the start of 1970) local time is `offset`
/// seconds ahead of universal time.
#[derive(Clone, Copy, PartialEq, Eq, Debug, Structural)]
pub struct Transition {
    pub at: i64,
    pub offset: i64,
}

/// A time zone: the offset it starts with, and its changes in the order
/// they happen.
#[derive(Clone, Debug, PartialEq, Eq)]
pub struct Zone {
    pub first_offset: i64,
    pub transitions: Vec<Transition>,
}

/// A date and a time of day on the calendar.
#[derive(Clone, Copy, PartialEq, Eq, Debug, Structural)]
pub struct Moment {
    pub year: i64,
    /// The month, counted from 1 for January.
    pub month: u8,
    pub day: i8,
    pub hour: i8,
    pub minute: i8,
}

/// The names of the months as the locale abbreviates them, January first.
#[derive(Clone, Debug, PartialEq, Eq)]
pub struct TimeLocale {
    pub months: Vec<String>,
}

/// The date and time of day that `datetime` works out for a number of
/// seconds since the start of 1970.
pub uninterp spec fn civil(seconds: int) -> Moment;

/// The earliest second that `datetime` can bring to the calendar: before
/// it, its arithmetic leaves the range of its integers.
pub const EARLIEST: i64 = -9_223_372_035_000_000_000;

/// Calls `datetime::LocalDateTime::at` and reads the year, month, day, hour
/// and minute off the result. The contract claims that these are the ones
/// named `civil`, a function of the seconds alone, and that the month is
/// one of the twelve that `datetime::Month` has, counted from 1.
#[verifier::external_body]
pub(crate) fn civil_moment(seconds: i64) -> (moment: Moment)
    requires
        seconds >= EARLIEST,
    ensures
        moment == civil(seconds as int),
        1 <= moment.month <= 12,
{
    let when = datetime::LocalDateTime::at(seconds);
    Moment {
        year: datetime::DatePiece::year(&when),
        month: datetime::DatePiece::month(&when) as u8,
        day: datetime::DatePiece::day(&when),
        hour: datetime::TimePiece::hour(&when),
        minute: datetime::TimePiece::minute(&when),
    }
}

/// The abbreviated English names of the months, January first.
pub open spec fn english_months() -> Seq<Seq<char>> {
    seq![
        "Jan"@,
        "Feb"@,
        "Mar"@,
        "Apr"@,
        "May"@,
        "Jun"@,
        "Jul"@,
        "Aug"@,
        "Sep"@,
        "Oct"@,
        "Nov"@,
        "Dec"@,
    ]
}

/// Calls `locale::Time::english` and asks it for the short name of one
/// month. The contract states the name that the crate's source lists.
#[verifier::external_body]
fn english_month(index: usize) -> (name: String)
    requires
        index < 12,
    ensures
        name@ == english_months()[index as int],
{
    ::locale::Time::english().short_month_name(index)
}

/// The names of a locale's months, one by one.
pub open spec fn month_names(months: Seq<String>) -> Seq<Seq<char>> {
    months.map_values(|m: String| m@)
}

impl TimeLocale {
    /// The English names of the months.
    pub fn english() -> (locale: TimeLocale)
        ensures
            month_names(locale.months@) == english_months(),
    {
        let mut months: Vec<String> = Vec::new();
        let mut index: usize = 0;
        while index < 12
            invariant
                index <= 12,
                months@.len() == index,
                forall|k: int| 0 <= k < index ==> (#[trigger] months@[k])@ == english_months()[k],
            decreases 12 - index,
        {
            months.push(english_month(index));
            index = index + 1;
        }
        assert(month_names(months@) =~= english_months());
        TimeLocale { months }
    }
}

/// The offset in force at `time`: that of the last change among those which
/// come, one after the other from the first, before `time`; the zone's first
/// offset if the first change does not come before it.
pub open spec fn offset_among(first: int, transitions: Seq<Transition>, time: int) -> int
    decreases transitions.len(),
{
    if transitions.len() == 0 {
        first
    } else if transitions[0].at < time {
        offset_among(transitions[0].offset as int, transitions.drop_first(), time)
    } else {
        first
    }
}

impl Zone {
    /// The offset of this zone at `time`.
    pub open spec fn offset_at(&self, time: int) -> int {
        offset_among(self.first_offset as int, self.transitions@, time)
    }

    /// The seconds since the start of 1970 that local clocks show at `time`.
    pub open spec fn local(&self, time: int) -> int {
        time + self.offset_at(time)
    }

    /// Whether the local time at `time` can be brought to the calendar.
    pub open spec fn reaches(&self, time: int) -> bool {
        EARLIEST <= self.local(time) <= i64::MAX
    }

    /// Universal time: no offset, ever.
    pub fn utc() -> (zone: Zone)
        ensures
            zone.first_offset == 0,
            zone.transitions@.len() == 0,
    {
        Zone { first_offset: 0, transitions: Vec::new() }
    }

    /// The offset of this zone at `time`, in seconds.
    pub fn offset(&self, time: i64) -> (offset: i64)
        ensures
            offset == self.offset_at(time as int),
    {
        let mut offset = self.first_offset;
        let mut next: usize = 0;
        assert(self.transitions@.skip(0) =~= self.transitions@);
        while next < self.transitions.len() && self.transitions[next].at < time
            invariant
                next <= self.transitions@.len(),
                self.offset_at(time as int) == offset_among(
                    offset as int,
                    self.transitions@.skip(next as int),
                    time as int,
                ),
            decreases self.transitions@.len() - next,
        {
            proof {
                let rest = self.transitions@.skip(next as int);
                assert(rest[0] == self.transitions@[next as int]);
                assert(rest.drop_first() =~= self.transitions@.skip(next + 1));
            }
            offset = self.transitions[next].offset;
            next = next + 1;
        }
        proof {
            let rest = self.transitions@.skip(next as int);
            if next < self.transitions@.len() {
                assert(rest[0] == self.transitions@[next as int]);
            }
        }
        offset
    }

    /// The calendar date and time of day that local clocks show at `time`,
    /// if it can be brought to the calendar at all.
    pub fn moment(&self, time: i64) -> (moment: Option<Moment>)
        ensures
            moment == if self.reaches(time as int) {
                Some(civil(self.local(time as int)))
            } else {
                None::<Moment>
            },
            moment matches Some(m) ==> 1 <= m.month <= 12,
    {
        match time.checked_add(self.offset(time)) {
            Some(local) => {
                if local >= EARLIEST {
                    Some(civil_moment(local))
                } else {
                    None
                }
            },
            None => None,
        }
    }
}

/// A whole number in decimal, with a minus sign if it is below zero.
pub open spec fn whole(n: int) -> Seq<char> {
    if n < 0 {
        seq!['-'] + decimal((-n) as nat)
    } else {
        decimal(n as nat)
    }
}

/// `text` moved to the right of a field of `width` characters, the room
/// before it taken up by `filler`. A text that is too long stays whole.
pub open spec fn right_aligned(text: Seq<char>, width: nat, filler: char) -> Seq<char> {
    if text.len() >= width {
        text
    } else {
        Seq::new((width - text.len()) as nat, |i: int| filler) + text
    }
}

/// The name of month `month`, counted from 1; nothing where the locale
/// has no such month.
pub open spec fn month_name(months: Seq<Seq<char>>, month: int) -> Seq<char> {
    if 1 <= month <= months.len() {
        months[month - 1]
    } else {
        Seq::empty()
    }
}

/// A date as the table shows it. In the current year: the day, the month
/// and the time of day, as in ` 3 Sep 13:26`. In any other year the year
/// stands in place of the time, as in `23 Nov  2014`.
pub open spec fn date_text(moment: Moment, months: Seq<Seq<char>>, current_year: int) -> Seq<
    char,
> {
    let day = right_aligned(whole(moment.day as int), 2, ' ') + seq![' '] + month_name(
        months,
        moment.month as int,
    ) + seq![' '];
    if moment.year == current_year {
        day + right_aligned(whole(moment.hour as int), 2, ' ') + seq![':'] + right_aligned(
            whole(moment.minute as int),
            2,
            '0',
        )
    } else {
        day + right_aligned(whole(moment.year as int), 5, ' ')
    }
}

/// Writes a whole number in decimal.
pub fn whole_text(n: i64) -> (text: String)
    ensures
        text@ == whole(n as int),
{
    if n < 0 {
        let size: u64 = if n == i64::MIN {
            9_223_372_036_854_775_808u64
        } else {
            (-n) as u64
        };
        let mut text = String::from_str("-");
        proof {
            reveal_strlit("-");
        }
        text.append(decimal_text(size).as_str());
        assert(text@ =~= whole(n as int));
        text
    } else {
        decimal_text(n as u64)
    }
}

/// Moves `text` to the right of a field of `width` characters. `filler`
/// is one character, which takes up the room before the text.
fn right_align(text: String, width: usize, filler: &str, Ghost(c): Ghost<char>) -> (out: String)
    requires
        filler@ == seq![c],
    ensures
        out@ == right_aligned(text@, width as nat, c),
{
    let length = text.as_str().unicode_len();
    if length >= width {
        text
    } else {
        let mut out = String::new();
        let mut room: usize = width - length;
        while room > 0
            invariant
                room <= width - length,
                filler@ == seq![c],
                out@ =~= Seq::new((width - length - room) as nat, |i: int| c),
            decreases room,
        {
            out.append(filler);
            room = room - 1;
        }
        out.append(text.as_str());
        assert(out@ =~= right_aligned(text@, width as nat, c));
        out
    }
}

impl Moment {
    /// Writes this date as the table shows it.
    pub fn date_text(&self, locale: &TimeLocale, current_year: i64) -> (text: String)
        ensures
            text@ == date_text(*self, month_names(locale.months@), current_year as int),
    {
        proof {
            reveal_strlit(" ");
            reveal_strlit("0");
            reveal_strlit(":");
            assert(" "@ =~= seq![' ']);
            assert("0"@ =~= seq!['0']);
            assert(":"@ =~= seq![':']);
        }
        let mut text = right_align(whole_text(self.day as i64), 2, " ", Ghost(' '));
        text.append(" ");
        if 1 <= self.month && self.month as usize <= locale.months.len() {
            text.append(locale.months[self.month as usize - 1].as_str());
        }
        text.append(" ");
        let ghost day = text@;
        assert(day =~= right_aligned(whole(self.day as int), 2, ' ') + seq![' '] + month_name(
            month_names(locale.months@),
            self.month as int,
        ) + seq![' ']);
        if self.year == current_year {
            let hour = right_align(whole_text(self.hour as i64), 2, " ", Ghost(' '));
            let minute = right_align(whole_text(self.minute as i64), 2, "0", Ghost('0'));
            text.append(hour.as_str());
            text.append(":");
            text.append(minute.as_str());
            assert(text@ =~= day + hour@ + seq![':'] + minute@);
        } else {
            let year = right_align(whole_text(self.year), 5, " ", Ghost(' '));
            text.append(year.as_str());
        }
        text
    }
}

} // verus!
