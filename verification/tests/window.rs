use vaktisalah::clock::ClockTime;
use vaktisalah::prayer::{Prayer, PrayerTimesWithDate, RemainingTime};
use vaktisalah::preferences::{schedule_from_days, Preferences, PreferencesJson};
use vaktisalah::string_map::StringMap;
use vaktisalah::window::{
    if_style, Message, NetworkError, Notice, Request, Tick, Warning, WindowState,
};

// 2023-11-14 22:13:20 UTC
const NOW: i64 = 1_700_000_000;

fn record(key: &str, fajr: &str) -> PrayerTimesWithDate {
    PrayerTimesWithDate {
        Imsak: fajr.to_string(),
        Gunes: "06:45".to_string(),
        Ogle: "12:30".to_string(),
        Ikindi: "15:50".to_string(),
        Aksam: "18:20".to_string(),
        Yatsi: "19:45".to_string(),
        MiladiTarihKisa: key.to_string(),
        HicriTarihKisa: "30.4.1445".to_string(),
        HicriTarihUzun: "30 Rebiulahir 1445".to_string(),
    }
}

fn names(pairs: &[(&str, &str)]) -> StringMap<String> {
    let mut map = StringMap::new();
    for (name, id) in pairs {
        map.insert(name.to_string(), id.to_string());
    }
    map
}

fn entries(map: &StringMap<String>) -> Vec<(String, String)> {
    let mut all: Vec<(String, String)> =
        (0..map.len()).map(|i| (map.key_at(i).clone(), map.value_at(i).clone())).collect();
    all.sort();
    all
}

fn stored(days: &Vec<PrayerTimesWithDate>) -> PreferencesJson {
    PreferencesJson {
        preferences: Preferences {
            country: "TURKIYE".to_string(),
            city: "ISTANBUL".to_string(),
            district: "ISTANBUL".to_string(),
            district_id: "9541".to_string(),
            warning_minutes: 15,
        },
        countries: names(&[("TURKIYE", "2"), ("ALMANYA", "13")]),
        countries_en: names(&[("TURKEY", "2"), ("GERMANY", "13")]),
        cities: names(&[("ISTANBUL", "539"), ("ANKARA", "506")]),
        districts: names(&[("ISTANBUL", "9541"), ("KARTAL", "9545")]),
        prayer_times: schedule_from_days(days),
    }
}

fn window(days: &Vec<PrayerTimesWithDate>) -> WindowState {
    let mut window = WindowState::new(stored(days));
    window.read_preferences_at(NOW);
    window
}

fn two_days() -> Vec<PrayerTimesWithDate> {
    vec![record("14.11.2023", "05:12"), record("15.11.2023", "05:10")]
}

#[test]
fn a_new_window_knows_nothing() {
    let window = WindowState::new(stored(&two_days()));
    assert_eq!(window.todays_prayers, None);
    assert_eq!(window.tomorrows_prayers, None);
    assert_eq!(window.visible_day, 0);
    assert_eq!(window.current_prayer, Prayer::Fajr);
    assert!(window.countries.is_empty() && window.cities.is_empty());
    assert!(window.countries_en.is_empty() && window.districts.is_empty());
    assert_eq!((window.country.as_str(), window.city.as_str(), window.district.as_str()), ("", "", ""));
}

#[test]
fn reading_the_preferences_fills_the_window() {
    let window = window(&two_days());
    assert_eq!(window.country, "TURKIYE");
    assert_eq!(window.city, "ISTANBUL");
    assert_eq!(window.district, "ISTANBUL");
    assert_eq!(entries(&window.countries), entries(&names(&[("TURKIYE", "2"), ("ALMANYA", "13")])));
    assert_eq!(entries(&window.countries_en), entries(&names(&[("TURKEY", "2"), ("GERMANY", "13")])));
    assert_eq!(entries(&window.cities), entries(&names(&[("ISTANBUL", "539"), ("ANKARA", "506")])));
    assert_eq!(entries(&window.districts), entries(&names(&[("ISTANBUL", "9541"), ("KARTAL", "9545")])));
    assert_eq!(window.todays_prayers, Some(record("14.11.2023", "05:12")));
    assert_eq!(window.tomorrows_prayers, Some(record("15.11.2023", "05:10")));
}

#[test]
fn a_valid_schedule_needs_no_fetch() {
    let window = window(&two_days());
    assert_eq!(window.init_second_tick_at(NOW), None);
}

#[test]
fn a_stale_schedule_asks_for_the_stored_district() {
    let window = window(&two_days());
    let asked = Some(Request::PrayerTimes { district_id: "9541".to_string() });
    assert_eq!(window.init_second_tick_at(NOW + 86_400), asked);
    assert_eq!(window.init_second_tick_at(NOW - 86_400), asked);
    // these two days are long past
    assert_eq!(window.init_second_tick(), asked);
}

#[test]
fn a_tick_reports_the_time_left() {
    let mut window = window(&two_days());
    let tick = window.on_second_tick_at(ClockTime::new(18, 19, 30).unwrap());
    assert_eq!(
        tick,
        Tick {
            remaining: Some(RemainingTime { hours: 0, minutes: 0, seconds: 30, next_prayer: Prayer::Maghrib }),
            prayer_changed: true,
            warning: None,
        }
    );
    assert_eq!(window.current_prayer, Prayer::Maghrib);
    let tick = window.on_second_tick_at(ClockTime::new(18, 19, 31).unwrap());
    assert!(!tick.prayer_changed);
    let tick = window.on_second_tick_at(ClockTime::new(18, 20, 0).unwrap());
    assert!(tick.prayer_changed);
    assert_eq!(window.current_prayer, Prayer::Isha);
}

#[test]
fn a_first_tick_before_fajr_changes_nothing() {
    let mut window = window(&two_days());
    let tick = window.on_second_tick_at(ClockTime::new(3, 0, 0).unwrap());
    assert!(!tick.prayer_changed);
    assert_eq!(window.current_prayer, Prayer::Fajr);
}

#[test]
fn the_tick_of_the_warning() {
    let mut window = window(&two_days());
    let mut warnings = Vec::new();
    // 18:03:59 to 18:05:01, around a quarter of an hour before Maghrib at 18:20
    for second_of_day in (18 * 3600 + 3 * 60 + 59)..=(18 * 3600 + 5 * 60 + 1) {
        let now = ClockTime::new(
            (second_of_day / 3600) as u8,
            ((second_of_day / 60) % 60) as u8,
            (second_of_day % 60) as u8,
        )
        .unwrap();
        let tick = window.on_second_tick_at(now);
        if let Some(warning) = tick.warning {
            warnings.push((now, warning));
        }
    }
    assert_eq!(
        warnings,
        vec![(ClockTime::new(18, 5, 0).unwrap(), Warning { next_prayer: Prayer::Maghrib, minutes: 15 })]
    );
}

#[test]
fn without_both_days_a_tick_is_empty() {
    let mut window = window(&vec![record("14.11.2023", "05:12")]);
    assert_eq!(window.tomorrows_prayers, None);
    window.current_prayer = Prayer::Asr;
    let tick = window.on_second_tick_at(ClockTime::new(10, 0, 0).unwrap());
    assert_eq!(tick, Tick { remaining: None, prayer_changed: false, warning: None });
    assert_eq!(window.current_prayer, Prayer::Asr);
    let tick = window.on_second_tick();
    assert_eq!(tick, Tick { remaining: None, prayer_changed: false, warning: None });
}

#[test]
fn a_month_that_arrives_replaces_the_schedule() {
    let mut window = window(&vec![record("01.10.2023", "05:00"), record("14.11.2023", "05:12")]);
    window.visible_day = 3;
    window.on_country_changed(1, "ALMANYA".to_string());
    window.on_city_changed(0, "ANKARA".to_string());
    window.on_district_changed(0, "KARTAL".to_string());
    let month = vec![record("14.11.2023", "05:40"), record("15.11.2023", "05:41"), record("16.11.2023", "05:42")];
    let notice = window.listen_channel_message_at(Message::PrayerTimesArrived(Ok(month)), NOW);
    assert_eq!(notice, Notice::PrayerTimesUpdated { valid: true });
    let schedule = &window.preferences.prayer_times;
    assert_eq!(schedule.len(), 3);
    assert_eq!(schedule.get("01.10.2023"), None);
    assert_eq!(schedule.get("14.11.2023"), Some(&record("14.11.2023", "05:40")));
    assert_eq!(window.todays_prayers, Some(record("14.11.2023", "05:40")));
    assert_eq!(window.tomorrows_prayers, Some(record("15.11.2023", "05:41")));
    assert_eq!(window.visible_day, 0);
    assert_eq!(
        window.preferences.preferences,
        Preferences {
            country: "ALMANYA".to_string(),
            city: "ANKARA".to_string(),
            district: "KARTAL".to_string(),
            district_id: "9545".to_string(),
            warning_minutes: 15,
        }
    );
    assert_eq!(entries(&window.preferences.cities), entries(&window.cities));
    assert_eq!(entries(&window.preferences.districts), entries(&window.districts));
    assert_eq!(window.init_second_tick_at(NOW), None);
}

#[test]
fn a_month_that_does_not_serve_is_kept_all_the_same() {
    let mut window = window(&two_days());
    let month = vec![record("01.12.2023", "06:00"), record("14.11.2023", "05:40")];
    let notice = window.listen_channel_message_at(Message::PrayerTimesArrived(Ok(month)), NOW);
    assert_eq!(notice, Notice::PrayerTimesUpdated { valid: false });
    assert_eq!(window.preferences.prayer_times.len(), 2);
    assert_eq!(window.todays_prayers, Some(record("14.11.2023", "05:40")));
    assert_eq!(window.tomorrows_prayers, None);
    assert_eq!(
        window.init_second_tick_at(NOW),
        Some(Request::PrayerTimes { district_id: "9541".to_string() })
    );
    let notice = window.listen_channel_message_at(Message::PrayerTimesArrived(Ok(Vec::new())), NOW);
    assert_eq!(notice, Notice::PrayerTimesUpdated { valid: false });
    assert!(window.preferences.prayer_times.is_empty());
    assert_eq!(window.todays_prayers, None);
}

#[test]
fn of_two_months_the_later_stays() {
    let mut window = window(&two_days());
    let first = vec![record("14.11.2023", "05:40"), record("15.11.2023", "05:41")];
    let second = vec![record("14.11.2023", "05:50"), record("15.11.2023", "05:51"), record("16.11.2023", "05:52")];
    window.listen_channel_message_at(Message::PrayerTimesArrived(Ok(first)), NOW);
    window.listen_channel_message_at(Message::PrayerTimesArrived(Ok(second)), NOW);
    assert_eq!(window.preferences.prayer_times.len(), 3);
    assert_eq!(window.todays_prayers, Some(record("14.11.2023", "05:50")));
    assert_eq!(window.tomorrows_prayers, Some(record("15.11.2023", "05:51")));
}

#[test]
fn a_fetch_that_failed_changes_nothing() {
    let mut window = window(&two_days());
    let notice = window.listen_channel_message_at(Message::PrayerTimesArrived(Err(NetworkError {})), NOW);
    assert_eq!(notice, Notice::PrayerTimesFailed);
    assert_eq!(window.preferences.prayer_times.len(), 2);
    assert_eq!(window.todays_prayers, Some(record("14.11.2023", "05:12")));
    assert_eq!(window.preferences.preferences.district_id, "9541");
    let notice = window.listen_channel_message(Message::PrayerTimesArrived(Err(NetworkError {})));
    assert_eq!(notice, Notice::PrayerTimesFailed);
    assert_eq!(window.todays_prayers, Some(record("14.11.2023", "05:12")));
    let notice = window.listen_channel_message(Message::CityListArrived(Err(NetworkError {}), "ALMANYA".to_string()));
    assert_eq!(notice, Notice::CityListFailed);
    assert_eq!(window.cities.len(), 2);
    let notice = window.listen_channel_message(Message::DistrictListArrived(Err(NetworkError {}), "ANKARA".to_string()));
    assert_eq!(notice, Notice::DistrictListFailed);
    assert_eq!(window.districts.len(), 2);
}

#[test]
fn lists_that_arrive_replace_the_lists() {
    let mut window = window(&two_days());
    let cities = names(&[("BERLIN", "1")]);
    let notice = window.listen_channel_message_at(Message::CityListArrived(Ok(cities), "ALMANYA".to_string()), NOW);
    assert_eq!(notice, Notice::CityListUpdated);
    assert_eq!(entries(&window.cities), vec![("BERLIN".to_string(), "1".to_string())]);
    assert_eq!(window.city, "ISTANBUL");
    let districts = names(&[("MITTE", "11"), ("SPANDAU", "12")]);
    let notice = window.listen_channel_message(Message::DistrictListArrived(Ok(districts), "BERLIN".to_string()));
    assert_eq!(notice, Notice::DistrictListUpdated);
    assert_eq!(window.districts.len(), 2);
    assert_eq!(window.districts.get("SPANDAU"), Some(&"12".to_string()));
    assert_eq!(window.district, "ISTANBUL");
    // the stored lists stay until a month arrives
    assert_eq!(window.preferences.cities.len(), 2);
}

#[test]
fn picking_a_country_asks_for_its_cities() {
    let mut window = window(&two_days());
    assert_eq!(window.on_country_changed(-1, "ALMANYA".to_string()), None);
    assert_eq!(window.on_country_changed(0, "TURKIYE".to_string()), None);
    assert_eq!(window.country, "TURKIYE");
    assert_eq!(
        window.on_country_changed(1, "ALMANYA".to_string()),
        Some(Request::CityList { country_id: "13".to_string(), country: "ALMANYA".to_string() })
    );
    assert_eq!(window.country, "ALMANYA");
    assert_eq!(
        window.on_country_changed(0, "TURKEY".to_string()),
        Some(Request::CityList { country_id: "2".to_string(), country: "TURKEY".to_string() })
    );
    assert_eq!(window.country, "TURKEY");
}

#[test]
fn picking_a_city_asks_for_its_districts() {
    let mut window = window(&two_days());
    assert_eq!(window.on_city_changed(-1, "ANKARA".to_string()), None);
    assert_eq!(window.on_city_changed(0, "ISTANBUL".to_string()), None);
    assert_eq!(
        window.on_city_changed(1, "ANKARA".to_string()),
        Some(Request::DistrictList { city_id: "506".to_string(), city: "ANKARA".to_string() })
    );
    assert_eq!(window.city, "ANKARA");
    assert_eq!(
        window.on_city_changed(1, "IZMIR".to_string()),
        Some(Request::DistrictList { city_id: String::new(), city: "IZMIR".to_string() })
    );
    assert_eq!(window.city, "IZMIR");
}

#[test]
fn picking_a_district_and_asking_for_its_times() {
    let mut window = window(&two_days());
    window.on_district_changed(-1, "KARTAL".to_string());
    assert_eq!(window.district, "ISTANBUL");
    assert_eq!(
        window.on_update_prayer_times_activated(),
        Request::PrayerTimes { district_id: "9541".to_string() }
    );
    window.on_district_changed(1, "KARTAL".to_string());
    assert_eq!(window.district, "KARTAL");
    assert_eq!(
        window.on_update_prayer_times_activated(),
        Request::PrayerTimes { district_id: "9545".to_string() }
    );
    assert_eq!(window.preferences.preferences.district, "ISTANBUL");
}

#[test]
fn the_minutes_of_warning_and_the_day_shown() {
    let mut window = window(&two_days());
    window.on_warn_min_changed(30);
    assert_eq!(window.preferences.preferences.warning_minutes, 30);
    assert_eq!(window.preferences.preferences.district_id, "9541");
    window.on_btn_next_date_clicked();
    window.on_btn_next_date_clicked();
    assert_eq!(window.visible_day, 2);
    window.on_btn_prev_date_clicked();
    window.on_btn_prev_date_clicked();
    window.on_btn_prev_date_clicked();
    assert_eq!(window.visible_day, -1);
}

#[test]
fn the_row_of_the_next_prayer_is_marked() {
    let marked = vec!["success".to_string(), "title-3".to_string()];
    assert_eq!(if_style(4, 4), marked);
    assert_eq!(if_style(3, 4), Vec::<String>::new());
    assert_eq!(if_style(0, 6), marked);
    assert_eq!(if_style(0, 0), marked);
    assert_eq!(if_style(6, 6), Vec::<String>::new());
    assert_eq!(if_style(-1, -7), marked);
    assert_eq!(if_style(5, -7), Vec::<String>::new());
}

#[test]
fn a_save_that_failed_is_told_and_changes_nothing() {
    let mut window = window(&two_days());
    let month = vec![record("14.11.2023", "05:40"), record("15.11.2023", "05:41")];
    window.listen_channel_message_at(Message::PrayerTimesArrived(Ok(month)), NOW);
    assert_eq!(window.preferences_saved(false), Some(Notice::PreferencesNotSaved));
    assert_eq!(window.preferences.prayer_times.len(), 2);
    assert_eq!(window.preferences.prayer_times.get("14.11.2023"), Some(&record("14.11.2023", "05:40")));
    assert_eq!(window.todays_prayers, Some(record("14.11.2023", "05:40")));
    assert_eq!(window.preferences_saved(true), None);
    window.on_warn_min_changed(20);
    assert_eq!(window.preferences_saved(false), Some(Notice::PreferencesNotSaved));
    assert_eq!(window.preferences.preferences.warning_minutes, 20);
}
