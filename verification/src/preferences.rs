use crate::prayer::PrayerTimesWithDate;
use crate::string_map::{collected, lemma_collected_step, StringMap};
use vstd::prelude::*;

verus! {

/// What the user has chosen: the place, by name and by the identifier of its
/// district, and how many minutes before a prayer the warning comes.
#[derive(Debug, Clone, PartialEq)]
pub struct Preferences {
    pub country: String,
    pub city: String,
    pub district: String,
    pub district_id: String,
    pub warning_minutes: u8,
}

/// All that is kept between runs: the choices, the lists of places that were
/// last offered, each from a name to an identifier, and the schedule, from a
/// day's key `DD.MM.YYYY` to the day.
#[derive(Debug, Clone)]
pub struct PreferencesJson {
    pub preferences: Preferences,
    pub countries: StringMap<String>,
    pub countries_en: StringMap<String>,
    pub cities: StringMap<String>,
    pub districts: StringMap<String>,
    pub prayer_times: StringMap<PrayerTimesWithDate>,
}

/// Fetched days as entries of a schedule: each under its own key,
/// `MiladiTarihKisa`.
pub open spec fn day_entries(days: Seq<PrayerTimesWithDate>) -> Seq<
    (Seq<char>, PrayerTimesWithDate),
> {
    Seq::new(days.len(), |i: int| (days[i].MiladiTarihKisa@, days[i]))
}

/// The schedule that fetched days make up. Of two days with one key the
/// later stays.
pub open spec fn schedule_of(days: Seq<PrayerTimesWithDate>) -> Map<
    Seq<char>,
    PrayerTimesWithDate,
> {
    collected(day_entries(days))
}

/// Builds the schedule that fetched days make up.
pub fn schedule_from_days(days: &Vec<PrayerTimesWithDate>) -> (schedule: StringMap<
    PrayerTimesWithDate,
>)
    ensures
        schedule@ == schedule_of(days@),
{
    let mut schedule: StringMap<PrayerTimesWithDate> = StringMap::new();
    let mut i: usize = 0;
    while i < days.len()
        invariant
            i <= days@.len(),
            schedule@ == collected(day_entries(days@).take(i as int)),
        decreases days@.len() - i,
    {
        let day = days[i].clone();
        let key = day.MiladiTarihKisa.clone();
        schedule.insert(key, day);
        proof {
            lemma_collected_step(day_entries(days@), i as int);
        }
        i = i + 1;
    }
    assert(day_entries(days@).take(i as int) =~= day_entries(days@));
    schedule
}

} // verus!
