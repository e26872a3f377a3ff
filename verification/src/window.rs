use crate::clock::{local_now, utc_now_seconds, ClockTime};
use crate::order::{
    ascending, is_text_before, lemma_text_before_irreflexive, lemma_text_before_total,
    lemma_text_before_transitive, text_before,
};
use crate::networking::{is_turkish, turkish_locale};
use crate::prayer::{
    calculate_remaining_time_at, day_at, days_readable, get_prayer_times_with_date_at,
    is_prayer_times_valid_at, remaining_time, should_warn, valid_at, warning_due, Prayer,
    PrayerTimesWithDate, RemainingTime,
};
use crate::preferences::{schedule_from_days, schedule_of, PreferencesJson};
use crate::string_map::StringMap;
use vstd::prelude::*;
use vstd::string::*;

verus! {

/// A fetch that failed. Why it failed is the network's affair.
#[derive(Debug, Clone, Copy, PartialEq, Eq, Structural)]
pub struct NetworkError {}

/// What a finished fetch hands to the window: a list of cities with the
/// country it was asked for, a list of districts with its city, or a month
/// of days.
#[derive(Debug)]
pub enum Message {
    CityListArrived(Result<StringMap<String>, NetworkError>, String),
    DistrictListArrived(Result<StringMap<String>, NetworkError>, String),
    PrayerTimesArrived(Result<Vec<PrayerTimesWithDate>, NetworkError>),
}

impl Message {
    /// Whether the message tells of a fetch that failed.
    pub open spec fn is_failure(self) -> bool {
        match self {
            Message::CityListArrived(result, _) => result is Err,
            Message::DistrictListArrived(result, _) => result is Err,
            Message::PrayerTimesArrived(result) => result is Err,
        }
    }
}

/// A fetch that the window asks for.
#[derive(Debug, PartialEq)]
pub enum Request {
    CityList { country_id: String, country: String },
    DistrictList { city_id: String, city: String },
    PrayerTimes { district_id: String },
}

/// What the window tells the user once a message is handled or the
/// preferences were to be written. With a month of days taken in comes the
/// word whether the new schedule serves: whether it holds today and
/// tomorrow. A schedule that does not is kept all the same, and no new fetch
/// is asked for.
#[derive(Debug, Clone, Copy, PartialEq, Eq, Structural)]
pub enum Notice {
    CityListUpdated,
    CityListFailed,
    DistrictListUpdated,
    DistrictListFailed,
    PrayerTimesUpdated { valid: bool },
    PrayerTimesFailed,
    PreferencesNotSaved,
}

/// The warning that a prayer is near: which prayer, and how many minutes
/// are left.
#[derive(Debug, Clone, Copy, PartialEq, Eq, Structural)]
pub struct Warning {
    pub next_prayer: Prayer,
    pub minutes: u8,
}

/// What one tick of the clock brings: the time left, if both days are known,
/// whether the next prayer is another than at the tick before, and the
/// warning, if it is due at this tick.
#[derive(Debug, Clone, Copy, PartialEq, Eq)]
pub struct Tick {
    pub remaining: Option<RemainingTime>,
    pub prayer_changed: bool,
    pub warning: Option<Warning>,
}

/// What the main window knows: the stored preferences, the two days around
/// now, the prayer that was next at the last tick, and the place that is
/// being chosen, with the lists to choose from.
#[derive(Debug)]
pub struct WindowState {
    pub preferences: PreferencesJson,
    pub todays_prayers: Option<PrayerTimesWithDate>,
    pub tomorrows_prayers: Option<PrayerTimesWithDate>,
    pub visible_day: i8,
    pub current_prayer: Prayer,
    pub countries: StringMap<String>,
    pub countries_en: StringMap<String>,
    pub cities: StringMap<String>,
    pub districts: StringMap<String>,
    pub country: String,
    pub city: String,
    pub district: String,
}

/// What a tick brings, given what is left and the minutes of warning.
pub open spec fn tick_of(
    remaining: Option<RemainingTime>,
    current_prayer: Prayer,
    warning_minutes: u8,
) -> Tick {
    match remaining {
        Some(r) => Tick {
            remaining,
            prayer_changed: r.next_prayer != current_prayer,
            warning: if warning_due(warning_minutes, r) {
                Some(Warning { next_prayer: r.next_prayer, minutes: warning_minutes })
            } else {
                None
            },
        },
        None => Tick { remaining, prayer_changed: false, warning: None },
    }
}

/// The remainder that is left when `a` is divided by a positive `d`, with
/// the sign of `a`.
pub open spec fn remainder(a: int, d: int) -> int {
    if a >= 0 {
        a % d
    } else {
        -((-a) % d)
    }
}

/// Whether a row of the day's table shows the prayer that is next, given
/// the number of each: the seventh slot, tomorrow's Fajr, is shown in the
/// row of Fajr.
pub open spec fn is_current_row(prayer_number: int, current_prayer: int) -> bool {
    prayer_number == remainder(current_prayer, 6)
}

/// The row that is marked for a slot is the row that shows the slot, and no
/// other row is marked.
pub proof fn lemma_marked_row(prayer_number: int, current_prayer: Prayer)
    ensures
        is_current_row(prayer_number, current_prayer.spec_index()) <==> prayer_number
            == current_prayer.spec_row(),
{
}

/// The style classes of a row of the day's table: `success` and `title-3`
/// for the row of the prayer that is next, none for the others.
pub fn if_style(prayer_number: i32, current_prayer: i32) -> (classes: Vec<String>)
    ensures
        is_current_row(prayer_number as int, current_prayer as int) ==> classes@.len() == 2
            && classes@[0]@ == "success"@ && classes@[1]@ == "title-3"@,
        !is_current_row(prayer_number as int, current_prayer as int) ==> classes@.len() == 0,
{
    let mut classes: Vec<String> = Vec::new();
    if prayer_number == (current_prayer % 6) {
        classes.push(String::from_str("success"));
        classes.push(String::from_str("title-3"));
    }
    classes
}

/// What a list of texts reads, text by text.
pub open spec fn views(texts: Seq<String>) -> Seq<Seq<char>> {
    Seq::new(texts.len(), |i: int| texts[i]@)
}

/// Whether a list is the model of a map of places: the names of the map,
/// each once, in ascending order.
pub open spec fn is_model_of(names: Seq<Seq<char>>, places: Map<Seq<char>, String>) -> bool {
    &&& ascending(names)
    &&& forall|i: int| 0 <= i < names.len() ==> places.contains_key(#[trigger] names[i])
    &&& forall|name: Seq<char>|
        places.contains_key(name) ==> exists|i: int| 0 <= i < names.len() && #[trigger] names[i] == name
}

/// The place in an ascending list at which a text stands or would have to
/// be put: all before it come before the text, and none from it on does.
fn place_of(names: &Vec<String>, name: &String) -> (at: usize)
    requires
        ascending(views(names@)),
    ensures
        at <= names@.len(),
        forall|i: int| 0 <= i < at ==> text_before(#[trigger] names@[i]@, name@),
        forall|i: int| at <= i < names@.len() ==> !text_before(#[trigger] names@[i]@, name@),
{
    let mut at: usize = 0;
    while at < names.len() && is_text_before(names[at].as_str(), name.as_str())
        invariant
            at <= names@.len(),
            forall|i: int| 0 <= i < at ==> text_before(#[trigger] names@[i]@, name@),
        decreases names@.len() - at,
    {
        at = at + 1;
    }
    proof {
        assert forall|i: int| at <= i < names@.len() implies !text_before(
            #[trigger] names@[i]@,
            name@,
        ) by {
            if i > at {
                assert(text_before(views(names@)[at as int], views(names@)[i]));
                lemma_text_before_total(names@[at as int]@, names@[i]@);
                if text_before(names@[i]@, name@) {
                    lemma_text_before_transitive(names@[at as int]@, names@[i]@, name@);
                }
            }
        }
    }
    at
}

/// The names of a map of places in ascending order.
pub fn sorted_names(name_id_list: &StringMap<String>) -> (names: Vec<String>)
    ensures
        is_model_of(views(names@), name_id_list@),
        names@.len() == name_id_list@.len(),
{
    let n = name_id_list.len();
    let mut names: Vec<String> = Vec::new();
    let mut i: usize = 0;
    while i < n
        invariant
            i <= n,
            n == name_id_list.spec_len(),
            names@.len() == i,
            ascending(views(names@)),
            forall|a: int, b: int|
                0 <= a < b < n ==> name_id_list.spec_key_at(a) != name_id_list.spec_key_at(b),
            forall|j: int|
                0 <= j < n ==> name_id_list@.contains_key(#[trigger] name_id_list.spec_key_at(j)),
            forall|name: Seq<char>|
                name_id_list@.contains_key(name) ==> exists|j: int|
                    0 <= j < n && #[trigger] name_id_list.spec_key_at(j) == name,
            forall|q: int|
                0 <= q < names@.len() ==> exists|j: int|
                    0 <= j < i && name_id_list.spec_key_at(j) == #[trigger] names@[q]@,
            forall|j: int|
                0 <= j < i ==> views(names@).contains(#[trigger] name_id_list.spec_key_at(j)),
        decreases n - i,
    {
        let name = name_id_list.key_at(i).clone();
        let at = place_of(&names, &name);
        let ghost before = names@;
        names.insert(at, name);
        proof {
            let old_views = views(before);
            let new_views = views(names@);
            assert forall|q: int| 0 <= q < before.len() implies name@ != #[trigger] before[q]@ by {
                let j = choose|j: int| 0 <= j < i && name_id_list.spec_key_at(j) == before[q]@;
                assert(name_id_list.spec_key_at(j) != name_id_list.spec_key_at(i as int));
            }
            assert forall|x: int, y: int| 0 <= x < y < new_views.len() implies text_before(
                new_views[x],
                new_views[y],
            ) by {
                if y < at {
                    assert(text_before(old_views[x], old_views[y]));
                } else if y == at {
                    assert(text_before(before[x]@, name@));
                } else if x == at {
                    // the new name against one that stood at `at` or after it
                    assert(!text_before(before[y - 1]@, name@));
                    lemma_text_before_total(before[y - 1]@, name@);
                } else if x < at {
                    assert(text_before(old_views[x], old_views[y - 1]));
                } else {
                    assert(text_before(old_views[x - 1], old_views[y - 1]));
                }
            }
            assert forall|q: int| 0 <= q < names@.len() implies exists|j: int|
                0 <= j < i + 1 && name_id_list.spec_key_at(j) == #[trigger] names@[q]@ by {
                if q < at {
                    assert(names@[q] == before[q]);
                    let j = choose|j: int| 0 <= j < i && name_id_list.spec_key_at(j) == before[q]@;
                    assert(name_id_list.spec_key_at(j) == names@[q]@);
                } else if q == at {
                    assert(name_id_list.spec_key_at(i as int) == names@[q]@);
                } else {
                    assert(names@[q] == before[q - 1]);
                    let j = choose|j: int|
                        0 <= j < i && name_id_list.spec_key_at(j) == before[q - 1]@;
                    assert(name_id_list.spec_key_at(j) == names@[q]@);
                }
            }
            assert forall|j: int| 0 <= j < i + 1 implies new_views.contains(
                #[trigger] name_id_list.spec_key_at(j),
            ) by {
                if j < i {
                    let q = old_views.index_of(name_id_list.spec_key_at(j));
                    assert(0 <= q < old_views.len() && old_views[q] == name_id_list.spec_key_at(j));
                    if q < at {
                        assert(new_views[q] == name_id_list.spec_key_at(j));
                    } else {
                        assert(new_views[q + 1] == name_id_list.spec_key_at(j));
                    }
                } else {
                    assert(new_views[at as int] == name_id_list.spec_key_at(j));
                }
            }
        }
        i = i + 1;
    }
    proof {
        let all = views(names@);
        assert forall|q: int| 0 <= q < all.len() implies name_id_list@.contains_key(
            #[trigger] all[q],
        ) by {
            let j = choose|j: int| 0 <= j < n && name_id_list.spec_key_at(j) == names@[q]@;
            assert(name_id_list@.contains_key(name_id_list.spec_key_at(j)));
        }
        assert forall|name: Seq<char>| name_id_list@.contains_key(name) implies exists|q: int|
            0 <= q < all.len() && #[trigger] all[q] == name by {
            let j = choose|j: int| 0 <= j < n && #[trigger] name_id_list.spec_key_at(j) == name;
            assert(all.contains(name_id_list.spec_key_at(j)));
            let q = all.index_of(name);
            assert(0 <= q < all.len() && all[q] == name);
        }
    }
    names
}

/// The row that is selected in a model: the row of the name, if one is
/// given and it is in the model, else the first.
pub open spec fn selected_row(names: Seq<Seq<char>>, selected_name: Option<Seq<char>>) -> int {
    match selected_name {
        Some(name) => if names.contains(name) {
            names.index_of(name)
        } else {
            0
        },
        None => 0,
    }
}

/// The model of a list of places, for a list on the screen: the names in
/// ascending order, and the row of the selected name; the first row where
/// no name is selected or the name is not in the list.
pub fn fill_model(selected_name: Option<String>, name_id_list: &StringMap<String>) -> (model: (
    Vec<String>,
    i32,
))
    ensures
        is_model_of(views(model.0@), name_id_list@),
        model.0@.len() == name_id_list@.len(),
        model.0@.len() <= i32::MAX ==> model.1 == selected_row(
            views(model.0@),
            match selected_name {
                Some(name) => Some(name@),
                None => None,
            },
        ),
{
    let keys = sorted_names(name_id_list);
    let mut selected_index: usize = 0;
    if let Some(name) = selected_name {
        let at = place_of(&keys, &name);
        proof {
            let all = views(keys@);
            if at < keys@.len() && keys@[at as int]@ == name@ {
                assert(all[at as int] == name@);
                assert forall|q: int| 0 <= q < all.len() && all[q] == name@ implies q == at by {
                    if q != at {
                        if q < at {
                            assert(text_before(all[q], all[at as int]));
                        } else {
                            assert(text_before(all[at as int], all[q]));
                        }
                        lemma_text_before_irreflexive(name@);
                    }
                }
            } else {
                assert forall|q: int| 0 <= q < all.len() implies all[q] != name@ by {
                    if all[q] == name@ {
                        lemma_text_before_irreflexive(name@);
                        if q < at {
                            assert(text_before(keys@[q]@, name@));
                        } else {
                            assert(q > at);
                            assert(text_before(all[at as int], all[q]));
                            assert(!text_before(keys@[at as int]@, name@));
                        }
                    }
                }
            }
        }
        if at < keys.len() && keys[at] == name {
            selected_index = at;
        }
    }
    (keys, #[verifier::truncate] (selected_index as i32))
}

impl WindowState {
    /// A window that has read nothing yet.
    pub fn new(preferences: PreferencesJson) -> (window: WindowState)
        ensures
            window.preferences == preferences,
            window.todays_prayers is None,
            window.tomorrows_prayers is None,
            window.visible_day == 0,
            window.current_prayer == Prayer::Fajr,
            window.countries@ == Map::<Seq<char>, String>::empty(),
            window.countries_en@ == Map::<Seq<char>, String>::empty(),
            window.cities@ == Map::<Seq<char>, String>::empty(),
            window.districts@ == Map::<Seq<char>, String>::empty(),
            window.country@ == Seq::<char>::empty(),
            window.city@ == Seq::<char>::empty(),
            window.district@ == Seq::<char>::empty(),
    {
        WindowState {
            preferences,
            todays_prayers: None,
            tomorrows_prayers: None,
            visible_day: 0,
            current_prayer: Prayer::Fajr,
            countries: StringMap::new(),
            countries_en: StringMap::new(),
            cities: StringMap::new(),
            districts: StringMap::new(),
            country: String::new(),
            city: String::new(),
            district: String::new(),
        }
    }

    /// The list of countries to choose from in a locale: by Turkish names
    /// in the locale `tr-TR`, by English names in every other.
    pub fn countries_in(&self, locale: &str) -> (countries: &StringMap<String>)
        ensures
            *countries == if locale@ == turkish_locale() {
                self.countries
            } else {
                self.countries_en
            },
    {
        if is_turkish(locale) {
            &self.countries
        } else {
            &self.countries_en
        }
    }

    /// Whether the tick can read the two days that the window holds.
    pub open spec fn days_readable(self) -> bool {
        days_readable(self.todays_prayers, self.tomorrows_prayers)
    }

    /// Looks up the days of the instant `now` and of the day after in the
    /// stored schedule and keeps them for the ticks to come.
    pub fn update_prayer_time_labels_at(&mut self, now: i64)
        ensures
            *final(self) == (WindowState {
                todays_prayers: day_at(old(self).preferences.prayer_times@, now, 0),
                tomorrows_prayers: day_at(old(self).preferences.prayer_times@, now, 1),
                ..*old(self)
            }),
    {
        let todays_prayers = get_prayer_times_with_date_at(&self.preferences, now, 0);
        let tomorrows_prayers = get_prayer_times_with_date_at(&self.preferences, now, 1);
        self.todays_prayers = todays_prayers;
        self.tomorrows_prayers = tomorrows_prayers;
    }

    /// Looks up today's and tomorrow's day by the clock, read once.
    pub fn update_prayer_time_labels(&mut self)
        ensures
            exists|now: i64|
                *final(self) == (WindowState {
                    todays_prayers: #[trigger] day_at(old(self).preferences.prayer_times@, now, 0),
                    tomorrows_prayers: day_at(old(self).preferences.prayer_times@, now, 1),
                    ..*old(self)
                }),
    {
        let now = utc_now_seconds();
        self.update_prayer_time_labels_at(now);
    }

    /// Takes the place and the lists of places from the stored preferences,
    /// and the two days around the instant `now` from the stored schedule.
    pub fn read_preferences_at(&mut self, now: i64)
        ensures
            final(self).preferences == old(self).preferences,
            final(self).countries@ == old(self).preferences.countries@,
            final(self).countries_en@ == old(self).preferences.countries_en@,
            final(self).cities@ == old(self).preferences.cities@,
            final(self).districts@ == old(self).preferences.districts@,
            final(self).country == old(self).preferences.preferences.country,
            final(self).city == old(self).preferences.preferences.city,
            final(self).district == old(self).preferences.preferences.district,
            final(self).todays_prayers == day_at(old(self).preferences.prayer_times@, now, 0),
            final(self).tomorrows_prayers == day_at(old(self).preferences.prayer_times@, now, 1),
            final(self).visible_day == old(self).visible_day,
            final(self).current_prayer == old(self).current_prayer,
    {
        self.countries = self.preferences.countries.clone();
        self.countries_en = self.preferences.countries_en.clone();
        self.country = self.preferences.preferences.country.clone();
        self.cities = self.preferences.cities.clone();
        self.city = self.preferences.preferences.city.clone();
        self.districts = self.preferences.districts.clone();
        self.district = self.preferences.preferences.district.clone();
        self.update_prayer_time_labels_at(now);
    }

    /// Takes the place and the lists of places from the stored preferences,
    /// and today's and tomorrow's day by the clock, read once.
    pub fn read_preferences(&mut self)
        ensures
            final(self).preferences == old(self).preferences,
            final(self).countries@ == old(self).preferences.countries@,
            final(self).countries_en@ == old(self).preferences.countries_en@,
            final(self).cities@ == old(self).preferences.cities@,
            final(self).districts@ == old(self).preferences.districts@,
            final(self).country == old(self).preferences.preferences.country,
            final(self).city == old(self).preferences.preferences.city,
            final(self).district == old(self).preferences.preferences.district,
            exists|now: i64|
                final(self).todays_prayers == #[trigger] day_at(
                    old(self).preferences.prayer_times@,
                    now,
                    0,
                ) && final(self).tomorrows_prayers == day_at(
                    old(self).preferences.prayer_times@,
                    now,
                    1,
                ),
            final(self).visible_day == old(self).visible_day,
            final(self).current_prayer == old(self).current_prayer,
    {
        let now = utc_now_seconds();
        self.read_preferences_at(now);
    }

    /// The fetch with which the window starts, if it needs one: a new month
    /// for the stored district where the schedule no longer holds the day of
    /// the instant `now` and the day after.
    pub open spec fn first_request(self, now: i64) -> Option<Request> {
        if valid_at(self.preferences.prayer_times@, now) {
            None
        } else {
            Some(Request::PrayerTimes { district_id: self.preferences.preferences.district_id })
        }
    }

    /// Decides at the instant `now` whether the window starts with a fetch.
    pub fn init_second_tick_at(&self, now: i64) -> (request: Option<Request>)
        ensures
            request == self.first_request(now),
    {
        if !is_prayer_times_valid_at(&self.preferences, now) {
            Some(
                Request::PrayerTimes {
                    district_id: self.preferences.preferences.district_id.clone(),
                },
            )
        } else {
            None
        }
    }

    /// Decides by the clock, read once, whether the window starts with a
    /// fetch. A fetch asked for is one for the stored district.
    pub fn init_second_tick(&self) -> (request: Option<Request>)
        ensures
            exists|now: i64| request == #[trigger] self.first_request(now),
            request is Some ==> request == Some(
                Request::PrayerTimes { district_id: self.preferences.preferences.district_id },
            ),
    {
        let now = utc_now_seconds();
        self.init_second_tick_at(now)
    }

    /// One tick at the clock reading `now`: the time left until the next
    /// prayer, whether that prayer is another than at the tick before, and
    /// the warning where exactly the chosen minutes are left. The window
    /// remembers the next prayer.
    pub fn on_second_tick_at(&mut self, now: ClockTime) -> (tick: Tick)
        requires
            old(self).days_readable(),
        ensures
            tick == tick_of(
                remaining_time(old(self).todays_prayers, old(self).tomorrows_prayers, now),
                old(self).current_prayer,
                old(self).preferences.preferences.warning_minutes,
            ),
            *final(self) == (WindowState {
                current_prayer: match tick.remaining {
                    Some(r) => r.next_prayer,
                    None => old(self).current_prayer,
                },
                ..*old(self)
            }),
    {
        let remaining_time = calculate_remaining_time_at(
            &self.todays_prayers,
            &self.tomorrows_prayers,
            now,
        );
        match remaining_time {
            Some(r) => {
                let prayer_changed = r.next_prayer != self.current_prayer;
                let warning = if should_warn(&self.preferences, &r) {
                    Some(
                        Warning {
                            next_prayer: r.next_prayer,
                            minutes: self.preferences.preferences.warning_minutes,
                        },
                    )
                } else {
                    None
                };
                self.current_prayer = r.next_prayer;
                Tick { remaining: remaining_time, prayer_changed, warning }
            },
            None => Tick { remaining: None, prayer_changed: false, warning: None },
        }
    }

    /// Whether `after` is the window `self` once a month of days has
    /// arrived at the instant `now`: the schedule is the month and nothing
    /// else, the place being chosen has become the stored place, its
    /// district's identifier looked up in the list of districts, and the
    /// two days around `now` are those of the new schedule. The lists and
    /// the place being chosen stay, as do the minutes of warning.
    pub open spec fn refreshed_to(
        self,
        after: WindowState,
        days: Seq<PrayerTimesWithDate>,
        now: i64,
    ) -> bool {
        &&& after.preferences.prayer_times@ == schedule_of(days)
        &&& after.preferences.cities@ == self.cities@
        &&& after.preferences.districts@ == self.districts@
        &&& after.preferences.countries == self.preferences.countries
        &&& after.preferences.countries_en == self.preferences.countries_en
        &&& after.preferences.preferences.country == self.country
        &&& after.preferences.preferences.city == self.city
        &&& after.preferences.preferences.district == self.district
        &&& after.preferences.preferences.district_id == self.districts@[self.district@]
        &&& after.preferences.preferences.warning_minutes
            == self.preferences.preferences.warning_minutes
        &&& after.todays_prayers == day_at(schedule_of(days), now, 0)
        &&& after.tomorrows_prayers == day_at(schedule_of(days), now, 1)
        &&& after.visible_day == 0
        &&& after.current_prayer == self.current_prayer
        &&& after.countries == self.countries
        &&& after.countries_en == self.countries_en
        &&& after.cities == self.cities
        &&& after.districts == self.districts
        &&& after.country == self.country
        &&& after.city == self.city
        &&& after.district == self.district
    }

    /// Takes in a month of days that arrived at the instant `now`, and says
    /// whether the new schedule serves at that instant.
    pub fn prayer_times_arrived_at(&mut self, days: &Vec<PrayerTimesWithDate>, now: i64) -> (valid:
        bool)
        requires
            old(self).districts@.contains_key(old(self).district@),
        ensures
            old(self).refreshed_to(*final(self), days@, now),
            valid == valid_at(schedule_of(days@), now),
    {
        let schedule = schedule_from_days(days);
        self.preferences.cities = self.cities.clone();
        self.preferences.districts = self.districts.clone();
        self.preferences.preferences.country = self.country.clone();
        self.preferences.preferences.city = self.city.clone();
        let district = self.district.clone();
        let district_id = match self.districts.get(district.as_str()) {
            Some(id) => id.clone(),
            None => String::new(),
        };
        self.preferences.preferences.district = district;
        self.preferences.preferences.district_id = district_id;
        self.preferences.prayer_times = schedule;
        self.update_prayer_time_labels_at(now);
        self.visible_day = 0;
        is_prayer_times_valid_at(&self.preferences, now)
    }

    /// Whether `after` and `notice` are what handling a message at the
    /// instant `now` makes of the window `self`. A list that arrived
    /// replaces the list to choose from. A month of days is taken in as
    /// `refreshed_to` says. A fetch that failed changes nothing.
    pub open spec fn handled_to(
        self,
        after: WindowState,
        notice: Notice,
        message: Message,
        now: i64,
    ) -> bool {
        match message {
            Message::CityListArrived(Ok(cities), _) => notice == Notice::CityListUpdated && after
                == (WindowState { cities, ..self }),
            Message::CityListArrived(Err(_), _) => notice == Notice::CityListFailed && after
                == self,
            Message::DistrictListArrived(Ok(districts), _) => notice
                == Notice::DistrictListUpdated && after == (WindowState { districts, ..self }),
            Message::DistrictListArrived(Err(_), _) => notice == Notice::DistrictListFailed
                && after == self,
            Message::PrayerTimesArrived(Ok(days)) => notice == (Notice::PrayerTimesUpdated {
                valid: valid_at(schedule_of(days@), now),
            }) && self.refreshed_to(after, days@, now),
            Message::PrayerTimesArrived(Err(_)) => notice == Notice::PrayerTimesFailed && after
                == self,
        }
    }

    /// Handles what a finished fetch hands over at the instant `now`.
    pub fn listen_channel_message_at(&mut self, message: Message, now: i64) -> (notice: Notice)
        requires
            message matches Message::PrayerTimesArrived(Ok(_)) ==> old(self).districts@.contains_key(
                old(self).district@,
            ),
        ensures
            old(self).handled_to(*final(self), notice, message, now),
    {
        match message {
            Message::CityListArrived(result, _country) => match result {
                Ok(cities) => {
                    self.cities = cities;
                    Notice::CityListUpdated
                },
                Err(_) => Notice::CityListFailed,
            },
            Message::DistrictListArrived(result, _city) => match result {
                Ok(districts) => {
                    self.districts = districts;
                    Notice::DistrictListUpdated
                },
                Err(_) => Notice::DistrictListFailed,
            },
            Message::PrayerTimesArrived(result) => match result {
                Ok(days) => {
                    let valid = self.prayer_times_arrived_at(&days, now);
                    Notice::PrayerTimesUpdated { valid }
                },
                Err(_) => Notice::PrayerTimesFailed,
            },
        }
    }

    /// Handles what a finished fetch hands over, at the instant that the
    /// clock shows, read once.
    pub fn listen_channel_message(&mut self, message: Message) -> (notice: Notice)
        requires
            message matches Message::PrayerTimesArrived(Ok(_)) ==> old(self).districts@.contains_key(
                old(self).district@,
            ),
        ensures
            exists|now: i64| #[trigger] old(self).handled_to(*final(self), notice, message, now),
            message.is_failure() ==> *final(self) == *old(self),
    {
        let now = utc_now_seconds();
        self.listen_channel_message_at(message, now)
    }

    /// What to tell the user once the preferences were to be written:
    /// nothing where they were, that they were not where the writing failed.
    pub open spec fn save_notice(saved: bool) -> Option<Notice> {
        if saved {
            None
        } else {
            Some(Notice::PreferencesNotSaved)
        }
    }

    /// Takes the outcome of writing the preferences. A failure is for the
    /// user to hear of and ends nothing: the window keeps what it knows,
    /// which stays right though it is not written down.
    pub fn preferences_saved(&self, saved: bool) -> (notice: Option<Notice>)
        ensures
            notice == Self::save_notice(saved),
    {
        if saved {
            None
        } else {
            Some(Notice::PreferencesNotSaved)
        }
    }

    /// The identifier of a country by its name, Turkish or English.
    pub open spec fn country_id_of(self, name: Seq<char>) -> String {
        if self.countries@.contains_key(name) {
            self.countries@[name]
        } else {
            self.countries_en@[name]
        }
    }

    /// The user picked a country: the row `index` of the list, which reads
    /// `value`. Where a row is picked and it is another country than before,
    /// the window takes it and asks for the country's cities.
    pub fn on_country_changed(&mut self, index: i32, value: String) -> (request: Option<Request>)
        requires
            index != -1 && value@ != old(self).country@ ==> old(self).countries@.contains_key(
                value@,
            ) || old(self).countries_en@.contains_key(value@),
        ensures
            index == -1 || value@ == old(self).country@ ==> request is None && *final(self)
                == *old(self),
            index != -1 && value@ != old(self).country@ ==> request == Some(
                Request::CityList { country_id: old(self).country_id_of(value@), country: value },
            ) && *final(self) == (WindowState { country: value, ..*old(self) }),
    {
        if index == -1 {
            return None;
        }
        if value == self.country {
            return None;
        }
        let country_id = match self.countries.get(value.as_str()) {
            Some(id) => id.clone(),
            None => match self.countries_en.get(value.as_str()) {
                Some(id) => id.clone(),
                None => String::new(),
            },
        };
        let country = value.clone();
        self.country = value;
        Some(Request::CityList { country_id, country })
    }

    /// The identifier of a city by its name; the empty text for a name that
    /// is not in the list.
    pub open spec fn city_id_of(self, name: Seq<char>) -> Seq<char> {
        if self.cities@.contains_key(name) {
            self.cities@[name]@
        } else {
            Seq::empty()
        }
    }

    /// The user picked a city: the row `index` of the list, which reads
    /// `value`. Where a row is picked and it is another city than before,
    /// the window takes it and asks for the city's districts.
    pub fn on_city_changed(&mut self, index: i32, value: String) -> (request: Option<Request>)
        ensures
            index == -1 || value@ == old(self).city@ ==> request is None && *final(self) == *old(
                self,
            ),
            index != -1 && value@ != old(self).city@ ==> *final(self) == (WindowState {
                city: value,
                ..*old(self)
            }),
            index != -1 && value@ != old(self).city@ ==> (request matches Some(
                Request::DistrictList { city_id, city },
            ) && city == value && city_id@ == old(self).city_id_of(value@)),
    {
        if index == -1 {
            return None;
        }
        if value == self.city {
            return None;
        }
        let city_id = match self.cities.get(value.as_str()) {
            Some(id) => id.clone(),
            None => String::new(),
        };
        let city = value.clone();
        self.city = value;
        Some(Request::DistrictList { city_id, city })
    }

    /// The user picked a district: the row `index` of the list, which reads
    /// `value`. Where a row is picked the window takes the district.
    pub fn on_district_changed(&mut self, index: i32, value: String)
        ensures
            index == -1 || value@ == old(self).district@ ==> *final(self) == *old(self),
            index != -1 && value@ != old(self).district@ ==> *final(self) == (WindowState {
                district: value,
                ..*old(self)
            }),
    {
        if index == -1 {
            return ;
        }
        if value == self.district {
            return ;
        }
        self.district = value;
    }

    /// The user set the minutes of warning.
    pub fn on_warn_min_changed(&mut self, value: u8)
        ensures
            final(self).preferences.preferences.warning_minutes == value,
            final(self).preferences.preferences.country == old(
                self,
            ).preferences.preferences.country,
            final(self).preferences.preferences.city == old(self).preferences.preferences.city,
            final(self).preferences.preferences.district == old(
                self,
            ).preferences.preferences.district,
            final(self).preferences.preferences.district_id == old(
                self,
            ).preferences.preferences.district_id,
            final(self).preferences.countries == old(self).preferences.countries,
            final(self).preferences.countries_en == old(self).preferences.countries_en,
            final(self).preferences.cities == old(self).preferences.cities,
            final(self).preferences.districts == old(self).preferences.districts,
            final(self).preferences.prayer_times == old(self).preferences.prayer_times,
            *final(self) == (WindowState { preferences: final(self).preferences, ..*old(self) }),
    {
        self.preferences.preferences.warning_minutes = value;
    }

    /// The user asked for new prayer times: a fetch for the district that is
    /// chosen, by its identifier in the list of districts.
    pub fn on_update_prayer_times_activated(&self) -> (request: Request)
        requires
            self.districts@.contains_key(self.district@),
        ensures
            request == (Request::PrayerTimes { district_id: self.districts@[self.district@] }),
    {
        let district_id = match self.districts.get(self.district.as_str()) {
            Some(id) => id.clone(),
            None => String::new(),
        };
        Request::PrayerTimes { district_id }
    }

    /// The user asked for the day before the one shown.
    pub fn on_btn_prev_date_clicked(&mut self)
        requires
            old(self).visible_day > -128,
        ensures
            *final(self) == (WindowState {
                visible_day: (old(self).visible_day - 1) as i8,
                ..*old(self)
            }),
    {
        self.visible_day = self.visible_day - 1;
    }

    /// The user asked for the day after the one shown.
    pub fn on_btn_next_date_clicked(&mut self)
        requires
            old(self).visible_day < 127,
        ensures
            *final(self) == (WindowState {
                visible_day: (old(self).visible_day + 1) as i8,
                ..*old(self)
            }),
    {
        self.visible_day = self.visible_day + 1;
    }

    /// One tick by the local wall clock, read once.
    pub fn on_second_tick(&mut self) -> (tick: Tick)
        requires
            old(self).days_readable(),
        ensures
            exists|now: ClockTime|
                now.is_valid() && tick == tick_of(
                    #[trigger] remaining_time(
                        old(self).todays_prayers,
                        old(self).tomorrows_prayers,
                        now,
                    ),
                    old(self).current_prayer,
                    old(self).preferences.preferences.warning_minutes,
                ),
            *final(self) == (WindowState {
                current_prayer: match tick.remaining {
                    Some(r) => r.next_prayer,
                    None => old(self).current_prayer,
                },
                ..*old(self)
            }),
    {
        let now = local_now();
        self.on_second_tick_at(now)
    }
}

} // verus!
