use crate::clock::{local_now, utc_date_key, utc_date_key_text, utc_now_seconds, ClockTime};
use crate::preferences::PreferencesJson;
use crate::text::{
    at_least_two_digits, digit_char, digit_of, digit_value, is_digit, push_at_least_two_digits,
};
use vstd::prelude::*;
use vstd::std_specs::convert::FromSpecImpl;
use vstd::string::*;

verus! {

/// One of the seven points of the daily schedule. `FajrNextDay` is tomorrow's
/// Fajr, seen from after today's Isha.
#[derive(Debug, Clone, Copy, PartialEq, Eq, Structural)]
pub enum Prayer {
    Fajr,
    Sunrise,
    Dhuhr,
    Asr,
    Maghrib,
    Isha,
    FajrNextDay,
}

impl Prayer {
    /// The position of the slot in the daily order, 0 for `Fajr` up to 6 for
    /// `FajrNextDay`.
    pub open spec fn spec_index(self) -> int {
        match self {
            Prayer::Fajr => 0,
            Prayer::Sunrise => 1,
            Prayer::Dhuhr => 2,
            Prayer::Asr => 3,
            Prayer::Maghrib => 4,
            Prayer::Isha => 5,
            Prayer::FajrNextDay => 6,
        }
    }

    /// The slot at a position; every position past 6 falls back to `Fajr`.
    pub open spec fn from_index(value: int) -> Prayer {
        if value == 1 {
            Prayer::Sunrise
        } else if value == 2 {
            Prayer::Dhuhr
        } else if value == 3 {
            Prayer::Asr
        } else if value == 4 {
            Prayer::Maghrib
        } else if value == 5 {
            Prayer::Isha
        } else if value == 6 {
            Prayer::FajrNextDay
        } else {
            Prayer::Fajr
        }
    }

    /// The words that name the wait for the slot, as in "10 minutes left to
    /// Fajr". Tomorrow's Fajr is Fajr to the eye: `FajrNextDay` reads as
    /// `Fajr` does.
    pub open spec fn spec_label(self) -> Seq<char> {
        match self {
            Prayer::Fajr => "to Fajr"@,
            Prayer::Sunrise => "to Sunrise"@,
            Prayer::Dhuhr => "to Dhuhr"@,
            Prayer::Asr => "to Asr"@,
            Prayer::Maghrib => "to Maghrib"@,
            Prayer::Isha => "to Isha"@,
            Prayer::FajrNextDay => "to Fajr"@,
        }
    }

    /// The words that name the wait for the slot.
    pub fn label(&self) -> (text: String)
        ensures
            text@ == self.spec_label(),
    {
        let words: &str = match self {
            Prayer::Fajr => "to Fajr",
            Prayer::Sunrise => "to Sunrise",
            Prayer::Dhuhr => "to Dhuhr",
            Prayer::Asr => "to Asr",
            Prayer::Maghrib => "to Maghrib",
            Prayer::Isha => "to Isha",
            Prayer::FajrNextDay => "to Fajr",
        };
        String::from_str(words)
    }

    /// The row of the day's table that shows the slot: `FajrNextDay` is
    /// shown in the row of `Fajr`.
    pub open spec fn spec_row(self) -> int {
        self.spec_index() % 6
    }

    /// The row of the day's table that shows the slot.
    pub fn row(self) -> (r: u8)
        ensures
            r == self.spec_row(),
            r < 6,
    {
        self.index() % 6
    }

    /// The position of the slot, as a number.
    pub fn index(self) -> (i: u8)
        ensures
            i == self.spec_index(),
    {
        match self {
            Prayer::Fajr => 0,
            Prayer::Sunrise => 1,
            Prayer::Dhuhr => 2,
            Prayer::Asr => 3,
            Prayer::Maghrib => 4,
            Prayer::Isha => 5,
            Prayer::FajrNextDay => 6,
        }
    }
}

impl Default for Prayer {
    fn default() -> (p: Prayer)
        ensures
            p == Prayer::Fajr,
    {
        Prayer::Fajr
    }
}

impl From<u8> for Prayer {
    fn from(value: u8) -> (p: Prayer) {
        match value {
            0 => Prayer::Fajr,
            1 => Prayer::Sunrise,
            2 => Prayer::Dhuhr,
            3 => Prayer::Asr,
            4 => Prayer::Maghrib,
            5 => Prayer::Isha,
            6 => Prayer::FajrNextDay,
            _ => Prayer::Fajr,
        }
    }
}

impl FromSpecImpl<u8> for Prayer {
    open spec fn obeys_from_spec() -> bool {
        true
    }

    open spec fn from_spec(value: u8) -> Prayer {
        Prayer::from_index(value as int)
    }
}

/// What is shown for tomorrow's Fajr is what is shown for Fajr: the same
/// words and the same row of the day's table. The words of the six slots of
/// the day differ from one another.
pub proof fn lemma_next_day_shows_as_fajr()
    ensures
        Prayer::FajrNextDay.spec_label() == Prayer::Fajr.spec_label(),
        Prayer::FajrNextDay.spec_row() == Prayer::Fajr.spec_row(),
        forall|a: Prayer, b: Prayer|
            a.spec_row() != b.spec_row() ==> #[trigger] a.spec_label() != #[trigger] b.spec_label(),
{
    reveal_strlit("to Fajr");
    reveal_strlit("to Sunrise");
    reveal_strlit("to Dhuhr");
    reveal_strlit("to Asr");
    reveal_strlit("to Maghrib");
    reveal_strlit("to Isha");
    assert forall|a: Prayer, b: Prayer| a.spec_row() != b.spec_row() implies #[trigger] a.spec_label()
        != #[trigger] b.spec_label() by {
        let x = a.spec_label();
        let y = b.spec_label();
        if x.len() == y.len() {
            // words of one length differ in the first letter of the name
            assert(x[3] != y[3]);
        }
    }
}

/// Turning a slot into its position and back gives the slot again.
pub proof fn lemma_index_round_trip(p: Prayer)
    ensures
        0 <= p.spec_index() <= 6,
        Prayer::from_index(p.spec_index()) == p,
{
}

/// How long until the next prayer, and which prayer that is.
#[derive(Debug, Clone, Copy, PartialEq, Eq, Structural)]
pub struct RemainingTime {
    pub hours: u8,
    pub minutes: u8,
    pub seconds: u8,
    pub next_prayer: Prayer,
}

impl RemainingTime {
    /// The duration as a number of seconds.
    pub open spec fn total_seconds(self) -> int {
        self.hours * 3600 + self.minutes * 60 + self.seconds
    }

    /// The duration as a countdown shows it: hours, minutes and seconds,
    /// each in at least two digits, with colons between.
    pub open spec fn countdown(self) -> Seq<char> {
        at_least_two_digits(self.hours as int) + seq![':'] + at_least_two_digits(
            self.minutes as int,
        ) + seq![':'] + at_least_two_digits(self.seconds as int)
    }

    /// Writes the duration as a countdown shows it.
    pub fn countdown_text(&self) -> (text: String)
        ensures
            text@ == self.countdown(),
    {
        proof {
            reveal_strlit(":");
        }
        let mut text = String::new();
        push_at_least_two_digits(&mut text, self.hours);
        text.append(":");
        push_at_least_two_digits(&mut text, self.minutes);
        text.append(":");
        push_at_least_two_digits(&mut text, self.seconds);
        assert(text@ =~= self.countdown());
        text
    }

    /// The duration of a number of seconds, split into hours, minutes below
    /// sixty and seconds below sixty.
    pub open spec fn of_seconds(total: int, next_prayer: Prayer) -> RemainingTime {
        RemainingTime {
            hours: (total / 3600) as u8,
            minutes: ((total / 60) % 60) as u8,
            seconds: (total % 60) as u8,
            next_prayer,
        }
    }
}

/// One calendar day of the schedule: six times of day, written as `HH:MM`,
/// and the day's date in three forms. `MiladiTarihKisa` is the day's key in
/// the schedule store, `DD.MM.YYYY`.
#[allow(non_snake_case)]
#[derive(Debug, PartialEq)]
pub struct PrayerTimesWithDate {
    pub Imsak: String,
    pub Gunes: String,
    pub Ogle: String,
    pub Ikindi: String,
    pub Aksam: String,
    pub Yatsi: String,
    pub MiladiTarihKisa: String,
    pub HicriTarihKisa: String,
    pub HicriTarihUzun: String,
}

impl Clone for PrayerTimesWithDate {
    fn clone(&self) -> (day: Self)
        ensures
            day == *self,
    {
        PrayerTimesWithDate {
            Imsak: self.Imsak.clone(),
            Gunes: self.Gunes.clone(),
            Ogle: self.Ogle.clone(),
            Ikindi: self.Ikindi.clone(),
            Aksam: self.Aksam.clone(),
            Yatsi: self.Yatsi.clone(),
            MiladiTarihKisa: self.MiladiTarihKisa.clone(),
            HicriTarihKisa: self.HicriTarihKisa.clone(),
            HicriTarihUzun: self.HicriTarihUzun.clone(),
        }
    }
}

/// Whether a text starts with a time of day: two digits for an hour below 24,
/// one ASCII character that separates, two digits for a minute below 60.
/// Nothing after these five characters is read.
pub open spec fn is_time_text(s: Seq<char>) -> bool {
    &&& s.len() >= 5
    &&& is_digit(s[0])
    &&& is_digit(s[1])
    &&& (s[2] as int) < 128
    &&& is_digit(s[3])
    &&& is_digit(s[4])
    &&& time_text_hour(s) < 24
    &&& time_text_minute(s) < 60
}

/// The hour that a time text names.
pub open spec fn time_text_hour(s: Seq<char>) -> int {
    digit_value(s[0]) * 10 + digit_value(s[1])
}

/// The minute that a time text names.
pub open spec fn time_text_minute(s: Seq<char>) -> int {
    digit_value(s[3]) * 10 + digit_value(s[4])
}

/// What a clock face shows is a time text, and names the hour and the minute
/// of the reading.
pub proof fn lemma_clock_face_is_time_text(now: ClockTime)
    requires
        now.is_valid(),
    ensures
        is_time_text(now.hour_minute()),
        time_text_hour(now.hour_minute()) == now.spec_hour(),
        time_text_minute(now.hour_minute()) == now.spec_minute(),
{
    now.lemma_valid_parts();
    let face = now.hour_minute();
    assert(face.len() == 5);
    assert(face[0] == digit_char(now.spec_hour() / 10));
    assert(face[1] == digit_char(now.spec_hour() % 10));
    assert(face[2] == ':');
    assert(face[3] == digit_char(now.spec_minute() / 10));
    assert(face[4] == digit_char(now.spec_minute() % 10));
}

/// Reads the hour and the minute of a time text.
pub fn parse_time_text(s: &str) -> (t: Option<(u8, u8)>)
    ensures
        t is Some <==> is_time_text(s@),
        t matches Some((hour, minute)) ==> hour == time_text_hour(s@) && minute
            == time_text_minute(s@),
{
    if s.unicode_len() < 5 {
        return None;
    }
    let h1 = digit_of(s.get_char(0));
    let h0 = digit_of(s.get_char(1));
    let separator = s.get_char(2);
    let m1 = digit_of(s.get_char(3));
    let m0 = digit_of(s.get_char(4));
    match (h1, h0, m1, m0) {
        (Some(a), Some(b), Some(c), Some(d)) => {
            let hour: u8 = a * 10 + b;
            let minute: u8 = c * 10 + d;
            if (separator as u32) < 128 && hour < 24 && minute < 60 {
                Some((hour, minute))
            } else {
                None
            }
        },
        _ => None,
    }
}

/// One point of the search: an hour that may run past 23, for a time of the
/// day after, and a minute.
pub struct Probe {
    pub hour: int,
    pub minute: int,
}

impl Probe {
    /// The point as seconds since today's midnight.
    pub open spec fn seconds(self) -> int {
        self.hour * 3600 + self.minute * 60
    }

    /// Whether the clock has reached the point. Only hours and minutes count:
    /// within the point's own minute it has been reached.
    pub open spec fn reached_at(self, now: ClockTime) -> bool {
        now.spec_hour() > self.hour || (now.spec_hour() == self.hour && now.spec_minute()
            >= self.minute)
    }
}

impl PrayerTimesWithDate {
    /// The day's six time texts, in the order of the day.
    pub open spec fn time_text(self, slot: int) -> Seq<char> {
        if slot == 0 {
            self.Imsak@
        } else if slot == 1 {
            self.Gunes@
        } else if slot == 2 {
            self.Ogle@
        } else if slot == 3 {
            self.Ikindi@
        } else if slot == 4 {
            self.Aksam@
        } else {
            self.Yatsi@
        }
    }

    /// Whether each of the six texts names a time of day.
    pub open spec fn has_valid_times(self) -> bool {
        forall|slot: int| 0 <= slot < 6 ==> is_time_text(#[trigger] self.time_text(slot))
    }

    /// The minute of the day that one of the six texts names.
    pub open spec fn minute_of_day(self, slot: int) -> int {
        time_text_hour(self.time_text(slot)) * 60 + time_text_minute(self.time_text(slot))
    }

    /// Whether the six times never run backwards through the day.
    pub open spec fn is_ordered(self) -> bool {
        forall|a: int, b: int|
            0 <= a <= b < 6 ==> #[trigger] self.minute_of_day(a) <= #[trigger] self.minute_of_day(
                b,
            )
    }

    /// Tests whether each of the six texts names a time of day.
    pub fn check_times(&self) -> (valid: bool)
        ensures
            valid == self.has_valid_times(),
    {
        let valid = parse_time_text(self.Imsak.as_str()).is_some() && parse_time_text(
            self.Gunes.as_str(),
        ).is_some() && parse_time_text(self.Ogle.as_str()).is_some() && parse_time_text(
            self.Ikindi.as_str(),
        ).is_some() && parse_time_text(self.Aksam.as_str()).is_some() && parse_time_text(
            self.Yatsi.as_str(),
        ).is_some();
        proof {
            if valid {
                assert forall|slot: int| 0 <= slot < 6 implies is_time_text(
                    #[trigger] self.time_text(slot),
                ) by {}
            } else {
                assert(self.time_text(0) == self.Imsak@);
                assert(self.time_text(1) == self.Gunes@);
                assert(self.time_text(2) == self.Ogle@);
                assert(self.time_text(3) == self.Ikindi@);
                assert(self.time_text(4) == self.Aksam@);
                assert(self.time_text(5) == self.Yatsi@);
            }
        }
        valid
    }
}

/// The seven points that the search looks at: today's six times, then
/// tomorrow's first, 24 hours on.
pub open spec fn probe_at(today: PrayerTimesWithDate, tomorrow: PrayerTimesWithDate, slot: int)
    -> Probe {
    if slot == 6 {
        Probe {
            hour: time_text_hour(tomorrow.Imsak@) + 24,
            minute: time_text_minute(tomorrow.Imsak@),
        }
    } else {
        Probe {
            hour: time_text_hour(today.time_text(slot)),
            minute: time_text_minute(today.time_text(slot)),
        }
    }
}

/// Whether all that the search reads of two days names times of day.
pub open spec fn probes_valid(today: PrayerTimesWithDate, tomorrow: PrayerTimesWithDate) -> bool {
    today.has_valid_times() && is_time_text(tomorrow.Imsak@)
}

/// Whether the search can read two days, as far as they are known: with a
/// day missing there is nothing to read.
pub open spec fn days_readable(
    today: Option<PrayerTimesWithDate>,
    tomorrow: Option<PrayerTimesWithDate>,
) -> bool {
    today is Some && tomorrow is Some ==> probes_valid(today->0, tomorrow->0)
}

/// Tests whether the search can read two days.
pub fn check_days(
    todays_prayers: &Option<PrayerTimesWithDate>,
    tomorrows_prayers: &Option<PrayerTimesWithDate>,
) -> (readable: bool)
    ensures
        readable == days_readable(*todays_prayers, *tomorrows_prayers),
{
    match (todays_prayers, tomorrows_prayers) {
        (Some(today), Some(tomorrow)) => today.check_times() && parse_time_text(
            tomorrow.Imsak.as_str(),
        ).is_some(),
        _ => true,
    }
}

/// The first of the seven points, from `from` on, that the clock has not
/// reached; 7 if it has reached them all.
pub open spec fn first_upcoming(
    today: PrayerTimesWithDate,
    tomorrow: PrayerTimesWithDate,
    now: ClockTime,
    from: int,
) -> int
    decreases 7 - from,
{
    if from >= 7 {
        7
    } else if !probe_at(today, tomorrow, from).reached_at(now) {
        from
    } else {
        first_upcoming(today, tomorrow, now, from + 1)
    }
}

/// The time left until the next prayer of two known days: the distance to
/// the first point not yet reached. Should every point be reached, it is
/// zero, to `Fajr`.
pub open spec fn remaining_between(
    today: PrayerTimesWithDate,
    tomorrow: PrayerTimesWithDate,
    now: ClockTime,
) -> RemainingTime {
    let slot = first_upcoming(today, tomorrow, now, 0);
    if slot < 7 {
        RemainingTime::of_seconds(
            probe_at(today, tomorrow, slot).seconds() - now.seconds_of_day(),
            Prayer::from_index(slot),
        )
    } else {
        RemainingTime { hours: 0, minutes: 0, seconds: 0, next_prayer: Prayer::Fajr }
    }
}

/// The time left until the next prayer: nothing unless both days are known.
pub open spec fn remaining_time(
    today: Option<PrayerTimesWithDate>,
    tomorrow: Option<PrayerTimesWithDate>,
    now: ClockTime,
) -> Option<RemainingTime> {
    match (today, tomorrow) {
        (Some(a), Some(b)) => Some(remaining_between(a, b, now)),
        _ => None,
    }
}

/// From any start, the search stops at a point that the clock has not
/// reached, and has reached every point that it went past.
pub proof fn lemma_first_upcoming_from(
    today: PrayerTimesWithDate,
    tomorrow: PrayerTimesWithDate,
    now: ClockTime,
    from: int,
)
    requires
        0 <= from <= 7,
    ensures
        from <= first_upcoming(today, tomorrow, now, from) <= 7,
        first_upcoming(today, tomorrow, now, from) < 7 ==> !probe_at(
            today,
            tomorrow,
            first_upcoming(today, tomorrow, now, from),
        ).reached_at(now),
        forall|slot: int|
            from <= slot < first_upcoming(today, tomorrow, now, from) ==> (#[trigger] probe_at(
                today,
                tomorrow,
                slot,
            )).reached_at(now),
    decreases 7 - from,
{
    if from < 7 && probe_at(today, tomorrow, from).reached_at(now) {
        lemma_first_upcoming_from(today, tomorrow, now, from + 1);
    }
}

/// The next prayer is the first of the seven points that the clock has not
/// reached, and there always is one: tomorrow's Fajr lies past every reading
/// of today's clock.
pub proof fn lemma_next_prayer_is_first_unreached(
    today: PrayerTimesWithDate,
    tomorrow: PrayerTimesWithDate,
    now: ClockTime,
)
    requires
        probes_valid(today, tomorrow),
        now.is_valid(),
    ensures
        0 <= first_upcoming(today, tomorrow, now, 0) <= 6,
        !probe_at(today, tomorrow, first_upcoming(today, tomorrow, now, 0)).reached_at(now),
        forall|slot: int|
            0 <= slot < first_upcoming(today, tomorrow, now, 0) ==> (#[trigger] probe_at(
                today,
                tomorrow,
                slot,
            )).reached_at(now),
        remaining_between(today, tomorrow, now).next_prayer.spec_index() == first_upcoming(
            today,
            tomorrow,
            now,
            0,
        ),
{
    now.lemma_valid_parts();
    lemma_first_upcoming_from(today, tomorrow, now, 0);
    assert(!probe_at(today, tomorrow, 6).reached_at(now));
}

/// The time reported is exactly the distance from the clock to the next
/// prayer: at least one second, less than two days, with minutes and seconds
/// below sixty.
pub proof fn lemma_remaining_is_exact(
    today: PrayerTimesWithDate,
    tomorrow: PrayerTimesWithDate,
    now: ClockTime,
)
    requires
        probes_valid(today, tomorrow),
        now.is_valid(),
    ensures
        remaining_between(today, tomorrow, now).total_seconds() == probe_at(
            today,
            tomorrow,
            first_upcoming(today, tomorrow, now, 0),
        ).seconds() - now.seconds_of_day(),
        remaining_between(today, tomorrow, now).total_seconds() >= 1,
        remaining_between(today, tomorrow, now).hours < 48,
        remaining_between(today, tomorrow, now).minutes < 60,
        remaining_between(today, tomorrow, now).seconds < 60,
{
    now.lemma_valid_parts();
    lemma_next_prayer_is_first_unreached(today, tomorrow, now);
    let slot = first_upcoming(today, tomorrow, now, 0);
    if slot < 6 {
        assert(is_time_text(today.time_text(slot)));
    }
}

/// Before the day's first prayer the next prayer is `Fajr`, and the time
/// left is exactly the distance to it.
pub proof fn lemma_before_first_prayer(
    today: PrayerTimesWithDate,
    tomorrow: PrayerTimesWithDate,
    now: ClockTime,
)
    requires
        probes_valid(today, tomorrow),
        now.is_valid(),
        now.seconds_of_day() < probe_at(today, tomorrow, 0).seconds(),
    ensures
        remaining_time(Some(today), Some(tomorrow), now) is Some,
        remaining_between(today, tomorrow, now).next_prayer == Prayer::Fajr,
        remaining_between(today, tomorrow, now).total_seconds() == probe_at(
            today,
            tomorrow,
            0,
        ).seconds() - now.seconds_of_day(),
{
    now.lemma_valid_parts();
    assert(is_time_text(today.time_text(0)));
    assert(!probe_at(today, tomorrow, 0).reached_at(now));
    lemma_remaining_is_exact(today, tomorrow, now);
}

/// From today's Isha on, on a day whose times are in order, the next prayer
/// is `FajrNextDay`, and the time left is what remains of today plus
/// tomorrow's Fajr.
pub proof fn lemma_after_last_prayer(
    today: PrayerTimesWithDate,
    tomorrow: PrayerTimesWithDate,
    now: ClockTime,
)
    requires
        probes_valid(today, tomorrow),
        today.is_ordered(),
        now.is_valid(),
        now.seconds_of_day() >= probe_at(today, tomorrow, 5).seconds(),
    ensures
        remaining_time(Some(today), Some(tomorrow), now) is Some,
        remaining_between(today, tomorrow, now).next_prayer == Prayer::FajrNextDay,
        remaining_between(today, tomorrow, now).total_seconds() == (86400 - now.seconds_of_day())
            + time_text_hour(tomorrow.Imsak@) * 3600 + time_text_minute(tomorrow.Imsak@) * 60,
{
    now.lemma_valid_parts();
    assert(is_time_text(today.time_text(5)));
    assert forall|slot: int| 0 <= slot < 6 implies (#[trigger] probe_at(
        today,
        tomorrow,
        slot,
    )).reached_at(now) by {
        assert(is_time_text(today.time_text(slot)));
        assert(today.minute_of_day(slot) <= today.minute_of_day(5));
    }
    lemma_next_prayer_is_first_unreached(today, tomorrow, now);
    lemma_remaining_is_exact(today, tomorrow, now);
}

/// A prayer whose hour and minute the clock shows has been reached: it is
/// not the next prayer, whatever the seconds, and the time left is never
/// zero.
pub proof fn lemma_current_minute_is_passed(
    today: PrayerTimesWithDate,
    tomorrow: PrayerTimesWithDate,
    now: ClockTime,
    slot: int,
)
    requires
        probes_valid(today, tomorrow),
        now.is_valid(),
        0 <= slot < 7,
        now.spec_hour() == probe_at(today, tomorrow, slot).hour,
        now.spec_minute() == probe_at(today, tomorrow, slot).minute,
    ensures
        first_upcoming(today, tomorrow, now, 0) != slot,
        remaining_between(today, tomorrow, now).next_prayer != Prayer::from_index(slot),
        remaining_between(today, tomorrow, now).total_seconds() > 0,
{
    lemma_next_prayer_is_first_unreached(today, tomorrow, now);
    lemma_remaining_is_exact(today, tomorrow, now);
}

/// The result depends on nothing but the seven time texts and the clock:
/// two pairs of days that agree on those give the same answer.
pub proof fn lemma_remaining_depends_on_times_only(
    today: PrayerTimesWithDate,
    tomorrow: PrayerTimesWithDate,
    other_today: PrayerTimesWithDate,
    other_tomorrow: PrayerTimesWithDate,
    now: ClockTime,
)
    requires
        forall|slot: int| 0 <= slot < 6 ==> today.time_text(slot) == other_today.time_text(slot),
        tomorrow.Imsak@ == other_tomorrow.Imsak@,
    ensures
        remaining_time(Some(today), Some(tomorrow), now) == remaining_time(
            Some(other_today),
            Some(other_tomorrow),
            now,
        ),
{
    assert forall|slot: int| 0 <= slot < 7 implies probe_at(today, tomorrow, slot) == probe_at(
        other_today,
        other_tomorrow,
        slot,
    ) by {
        if slot < 6 {
            assert(today.time_text(slot) == other_today.time_text(slot));
        }
    }
    lemma_same_probes_same_search(today, tomorrow, other_today, other_tomorrow, now, 0);
    lemma_first_upcoming_from(today, tomorrow, now, 0);
    let slot = first_upcoming(today, tomorrow, now, 0);
    if slot < 7 {
        assert(probe_at(today, tomorrow, slot) == probe_at(other_today, other_tomorrow, slot));
    }
}

proof fn lemma_same_probes_same_search(
    today: PrayerTimesWithDate,
    tomorrow: PrayerTimesWithDate,
    other_today: PrayerTimesWithDate,
    other_tomorrow: PrayerTimesWithDate,
    now: ClockTime,
    from: int,
)
    requires
        0 <= from <= 7,
        forall|slot: int|
            0 <= slot < 7 ==> probe_at(today, tomorrow, slot) == probe_at(
                other_today,
                other_tomorrow,
                slot,
            ),
    ensures
        first_upcoming(today, tomorrow, now, from) == first_upcoming(
            other_today,
            other_tomorrow,
            now,
            from,
        ),
    decreases 7 - from,
{
    if from < 7 {
        assert(probe_at(today, tomorrow, from) == probe_at(other_today, other_tomorrow, from));
        lemma_same_probes_same_search(today, tomorrow, other_today, other_tomorrow, now, from + 1);
    }
}

/// The text of one of the seven points.
fn probe_text<'a>(
    today: &'a PrayerTimesWithDate,
    tomorrow: &'a PrayerTimesWithDate,
    slot: u8,
) -> (text: &'a String)
    requires
        slot < 7,
    ensures
        slot < 6 ==> text@ == today.time_text(slot as int),
        slot == 6 ==> text@ == tomorrow.Imsak@,
{
    match slot {
        0 => &today.Imsak,
        1 => &today.Gunes,
        2 => &today.Ogle,
        3 => &today.Ikindi,
        4 => &today.Aksam,
        5 => &today.Yatsi,
        _ => &tomorrow.Imsak,
    }
}

/// Which prayer comes next at the clock reading `now`, and how long until
/// it. Nothing unless both days are known.
pub fn calculate_remaining_time_at(
    todays_prayers: &Option<PrayerTimesWithDate>,
    tomorrows_prayers: &Option<PrayerTimesWithDate>,
    now: ClockTime,
) -> (res: Option<RemainingTime>)
    requires
        days_readable(*todays_prayers, *tomorrows_prayers),
    ensures
        res == remaining_time(*todays_prayers, *tomorrows_prayers, now),
{
    let (today, tomorrow) = match (todays_prayers, tomorrows_prayers) {
        (Some(a), Some(b)) => (a, b),
        _ => {
            return None;
        },
    };
    let now_hours: u32 = now.hour() as u32;
    let now_minutes: u32 = now.minute() as u32;
    let now_seconds: u32 = now.second() as u32;
    let mut slot: u8 = 0;
    while slot < 7
        invariant
            slot <= 7,
            *todays_prayers == Some(*today),
            *tomorrows_prayers == Some(*tomorrow),
            probes_valid(*today, *tomorrow),
            now_hours == now.spec_hour(),
            now_minutes == now.spec_minute(),
            now_seconds == now.spec_second(),
            now_hours < 24,
            now_minutes < 60,
            now_seconds < 60,
            first_upcoming(*today, *tomorrow, now, 0) == first_upcoming(
                *today,
                *tomorrow,
                now,
                slot as int,
            ),
        decreases 7 - slot,
    {
        let text = probe_text(today, tomorrow, slot);
        assert(is_time_text(text@)) by {
            if slot < 6 {
                assert(is_time_text(today.time_text(slot as int)));
            }
        }
        let (hour, minute) = parse_time_text(text.as_str()).unwrap();
        let hours: u32 = if slot == 6 {
            hour as u32 + 24
        } else {
            hour as u32
        };
        let minutes: u32 = minute as u32;
        assert(probe_at(*today, *tomorrow, slot as int) == Probe {
            hour: hours as int,
            minute: minutes as int,
        });
        if now_hours > hours || (now_hours == hours && now_minutes >= minutes) {
            slot = slot + 1;
        } else {
            let total_now_seconds: u32 = now_hours * 3600 + now_minutes * 60 + now_seconds;
            let total_prayer_seconds: u32 = hours * 3600 + minutes * 60;
            let total_remaining_seconds: u32 = total_prayer_seconds - total_now_seconds;
            return Some(
                RemainingTime {
                    hours: (total_remaining_seconds / 3600) as u8,
                    minutes: ((total_remaining_seconds / 60) % 60) as u8,
                    seconds: (total_remaining_seconds % 60) as u8,
                    next_prayer: Prayer::from(slot),
                },
            );
        }
    }
    Some(RemainingTime { hours: 0, minutes: 0, seconds: 0, next_prayer: Prayer::Fajr })
}

/// Which prayer comes next by the local wall clock, and how long until it.
/// The clock is read once; the result is that of
/// `calculate_remaining_time_at` for the reading.
pub fn calculate_remaining_time(
    todays_prayers: &Option<PrayerTimesWithDate>,
    tomorrows_prayers: &Option<PrayerTimesWithDate>,
) -> (res: Option<RemainingTime>)
    requires
        days_readable(*todays_prayers, *tomorrows_prayers),
    ensures
        res is Some <==> todays_prayers is Some && tomorrows_prayers is Some,
        exists|now: ClockTime|
            now.is_valid() && res == #[trigger] remaining_time(
                *todays_prayers,
                *tomorrows_prayers,
                now,
            ),
{
    let now = local_now();
    calculate_remaining_time_at(todays_prayers, tomorrows_prayers, now)
}

/// The day stored under a key, if the schedule holds the key.
pub open spec fn stored_day(store: Map<Seq<char>, PrayerTimesWithDate>, key: Seq<char>) -> Option<
    PrayerTimesWithDate,
> {
    if store.contains_key(key) {
        Some(store[key])
    } else {
        None
    }
}

/// The day that the schedule holds for the UTC date `additional_day` days
/// after the instant `now`.
pub open spec fn day_at(
    store: Map<Seq<char>, PrayerTimesWithDate>,
    now: i64,
    additional_day: u64,
) -> Option<PrayerTimesWithDate> {
    match utc_date_key_text(now, additional_day) {
        Some(key) => stored_day(store, key),
        None => None,
    }
}

/// A copy of the day stored under a key.
pub fn get_prayer_times_of_key(preferences_json: &PreferencesJson, key: &str) -> (day: Option<
    PrayerTimesWithDate,
>)
    ensures
        day == stored_day(preferences_json.prayer_times@, key@),
{
    match preferences_json.prayer_times.get(key) {
        Some(day) => Some(day.clone()),
        None => None,
    }
}

/// A copy of the day that the schedule holds for the UTC date
/// `additional_day` days after the instant `now`, given in seconds since the
/// Unix epoch. No day lies more than 2147483647 days ahead.
pub fn get_prayer_times_with_date_at(
    preferences_json: &PreferencesJson,
    now: i64,
    additional_day: u64,
) -> (day: Option<PrayerTimesWithDate>)
    ensures
        day == day_at(preferences_json.prayer_times@, now, additional_day),
        additional_day > i32::MAX ==> day is None,
{
    match utc_date_key(now, additional_day) {
        Some(key) => get_prayer_times_of_key(preferences_json, key.as_str()),
        None => None,
    }
}

/// A copy of the day that the schedule holds for the UTC date
/// `additional_day` days from now. The clock is read once; the result is
/// that of `get_prayer_times_with_date_at` for the reading, so a day that
/// comes back is one that the schedule holds. No day lies more than
/// 2147483647 days ahead.
pub fn get_prayer_times_with_date(preferences_json: &PreferencesJson, additional_day: u64) -> (day:
    Option<PrayerTimesWithDate>)
    ensures
        exists|now: i64| day == #[trigger] day_at(preferences_json.prayer_times@, now, additional_day),
        day matches Some(found) ==> preferences_json.prayer_times@.contains_value(found),
        additional_day > i32::MAX ==> day is None,
{
    let now = utc_now_seconds();
    let day = get_prayer_times_with_date_at(preferences_json, now, additional_day);
    proof {
        if day is Some {
            let key = utc_date_key_text(now, additional_day)->0;
            assert(preferences_json.prayer_times@.contains_key(key));
        }
    }
    day
}

/// Whether a schedule holds both of two days.
pub open spec fn schedule_covers(
    store: Map<Seq<char>, PrayerTimesWithDate>,
    today_key: Seq<char>,
    tomorrow_key: Seq<char>,
) -> bool {
    store.contains_key(today_key) && store.contains_key(tomorrow_key)
}

/// Whether a schedule holds the UTC date of the instant `now` and the date
/// after it. It does not where one of the two dates has no key.
pub open spec fn valid_at(store: Map<Seq<char>, PrayerTimesWithDate>, now: i64) -> bool {
    match (utc_date_key_text(now, 0), utc_date_key_text(now, 1)) {
        (Some(today_key), Some(tomorrow_key)) => schedule_covers(store, today_key, tomorrow_key),
        _ => false,
    }
}

/// Whether the stored schedule holds both of two days, given by their keys.
pub fn has_prayer_times_of_keys(
    preferences: &PreferencesJson,
    today_key: &str,
    tomorrow_key: &str,
) -> (valid: bool)
    ensures
        valid == schedule_covers(preferences.prayer_times@, today_key@, tomorrow_key@),
{
    preferences.prayer_times.contains_key(today_key) && preferences.prayer_times.contains_key(
        tomorrow_key,
    )
}

/// Whether the stored schedule still serves at the instant `now`, given in
/// seconds since the Unix epoch: whether it holds the instant's UTC date and
/// the date after it.
pub fn is_prayer_times_valid_at(preferences: &PreferencesJson, now: i64) -> (valid: bool)
    ensures
        valid == valid_at(preferences.prayer_times@, now),
{
    let today_key = match utc_date_key(now, 0) {
        Some(key) => key,
        None => {
            return false;
        },
    };
    let tomorrow_key = match utc_date_key(now, 1) {
        Some(key) => key,
        None => {
            return false;
        },
    };
    has_prayer_times_of_keys(preferences, today_key.as_str(), tomorrow_key.as_str())
}

/// Whether the stored schedule still serves now. The clock is read once; the
/// result is that of `is_prayer_times_valid_at` for the reading, so a
/// schedule found valid holds at least one day.
pub fn is_prayer_times_valid(preferences: &PreferencesJson) -> (valid: bool)
    ensures
        exists|now: i64| valid == #[trigger] valid_at(preferences.prayer_times@, now),
        valid ==> exists|key: Seq<char>| preferences.prayer_times@.contains_key(key),
{
    let now = utc_now_seconds();
    let valid = is_prayer_times_valid_at(preferences, now);
    proof {
        if valid {
            assert(preferences.prayer_times@.contains_key(utc_date_key_text(now, 0)->0));
        }
    }
    valid
}

/// Whether a schedule is valid depends on the keys it holds and on nothing
/// in the days stored under them; with one of the two days missing it is
/// not valid.
pub proof fn lemma_validity_is_about_keys(
    store: Map<Seq<char>, PrayerTimesWithDate>,
    other: Map<Seq<char>, PrayerTimesWithDate>,
    today_key: Seq<char>,
    tomorrow_key: Seq<char>,
    now: i64,
)
    requires
        store.dom() == other.dom(),
    ensures
        schedule_covers(store, today_key, tomorrow_key) == schedule_covers(
            other,
            today_key,
            tomorrow_key,
        ),
        valid_at(store, now) == valid_at(other, now),
        !store.contains_key(tomorrow_key) ==> !schedule_covers(store, today_key, tomorrow_key),
        !store.contains_key(today_key) ==> !schedule_covers(store, today_key, tomorrow_key),
{
    assert(store.contains_key(today_key) == other.contains_key(today_key));
    assert(store.contains_key(tomorrow_key) == other.contains_key(tomorrow_key));
    if let (Some(a), Some(b)) = (utc_date_key_text(now, 0), utc_date_key_text(now, 1)) {
        assert(store.contains_key(a) == other.contains_key(a));
        assert(store.contains_key(b) == other.contains_key(b));
    }
}

/// Whether the warning is due: the whole minutes left are the chosen number
/// and no seconds are left over.
pub open spec fn warning_due(warning_minutes: u8, remaining: RemainingTime) -> bool {
    remaining.hours * 60 + remaining.minutes == warning_minutes && remaining.seconds == 0
}

/// Whether to warn the user now of the prayer to come.
pub fn should_warn(preferences_json: &PreferencesJson, remaining_time: &RemainingTime) -> (warn:
    bool)
    ensures
        warn == warning_due(preferences_json.preferences.warning_minutes, *remaining_time),
{
    let warn_min: u32 = preferences_json.preferences.warning_minutes as u32;
    let current_min: u32 = remaining_time.hours as u32 * 60 + remaining_time.minutes as u32;
    current_min == warn_min && remaining_time.seconds == 0
}

/// On a countdown the warning is due at one moment only: when exactly the
/// chosen number of minutes is left.
pub proof fn lemma_warning_moment(warning_minutes: u8, remaining: RemainingTime)
    requires
        remaining.minutes < 60,
        remaining.seconds < 60,
    ensures
        warning_due(warning_minutes, remaining) <==> remaining.total_seconds() == 60
            * warning_minutes,
{
}

/// The warning is due at the clock reading that lies exactly the chosen
/// minutes before the next prayer, and at no other.
pub proof fn lemma_warning_reading(
    today: PrayerTimesWithDate,
    tomorrow: PrayerTimesWithDate,
    now: ClockTime,
    warning_minutes: u8,
)
    requires
        probes_valid(today, tomorrow),
        now.is_valid(),
    ensures
        warning_due(warning_minutes, remaining_between(today, tomorrow, now)) <==> probe_at(
            today,
            tomorrow,
            first_upcoming(today, tomorrow, now, 0),
        ).seconds() - now.seconds_of_day() == 60 * warning_minutes,
{
    lemma_remaining_is_exact(today, tomorrow, now);
    lemma_warning_moment(warning_minutes, remaining_between(today, tomorrow, now));
}

/// Before each prayer the warning comes once: two clock readings with the
/// same next prayer at which the warning is due are one reading.
pub proof fn lemma_one_warning_per_prayer(
    today: PrayerTimesWithDate,
    tomorrow: PrayerTimesWithDate,
    earlier: ClockTime,
    later: ClockTime,
    warning_minutes: u8,
)
    requires
        probes_valid(today, tomorrow),
        earlier.is_valid(),
        later.is_valid(),
        first_upcoming(today, tomorrow, earlier, 0) == first_upcoming(today, tomorrow, later, 0),
        warning_due(warning_minutes, remaining_between(today, tomorrow, earlier)),
        warning_due(warning_minutes, remaining_between(today, tomorrow, later)),
    ensures
        earlier == later,
{
    lemma_warning_reading(today, tomorrow, earlier, warning_minutes);
    lemma_warning_reading(today, tomorrow, later, warning_minutes);
    earlier.lemma_valid_parts();
    later.lemma_valid_parts();
    assert(earlier.seconds_of_day() == later.seconds_of_day());
    earlier.lemma_parts_determine(later);
}

/// Two moments of a countdown at which the warning is due are the same
/// moment.
pub proof fn lemma_warning_fires_once(
    warning_minutes: u8,
    earlier: RemainingTime,
    later: RemainingTime,
)
    requires
        earlier.minutes < 60,
        earlier.seconds < 60,
        later.minutes < 60,
        later.seconds < 60,
        warning_due(warning_minutes, earlier),
        warning_due(warning_minutes, later),
    ensures
        earlier.total_seconds() == later.total_seconds(),
        earlier.hours == later.hours,
        earlier.minutes == later.minutes,
        earlier.seconds == later.seconds,
{
}

} // verus!
