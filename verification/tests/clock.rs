use chrono::{Datelike, Days, Local, TimeZone, Timelike, Utc};
use vaktisalah::clock::{date_key, local_now, utc_date_key};
use vaktisalah::prayer::{
    get_prayer_times_with_date, is_prayer_times_valid, parse_time_text, PrayerTimesWithDate,
};
use vaktisalah::preferences::{schedule_from_days, Preferences, PreferencesJson};
use vaktisalah::string_map::StringMap;

fn record(key: String) -> PrayerTimesWithDate {
    PrayerTimesWithDate {
        Imsak: "05:12".to_string(),
        Gunes: "06:45".to_string(),
        Ogle: "12:30".to_string(),
        Ikindi: "15:50".to_string(),
        Aksam: "18:20".to_string(),
        Yatsi: "19:45".to_string(),
        MiladiTarihKisa: key,
        HicriTarihKisa: String::new(),
        HicriTarihUzun: String::new(),
    }
}

fn preferences_with(keys: Vec<String>) -> PreferencesJson {
    let days: Vec<PrayerTimesWithDate> = keys.into_iter().map(record).collect();
    PreferencesJson {
        preferences: Preferences {
            country: String::new(),
            city: String::new(),
            district: String::new(),
            district_id: String::new(),
            warning_minutes: 15,
        },
        countries: StringMap::new(),
        countries_en: StringMap::new(),
        cities: StringMap::new(),
        districts: StringMap::new(),
        prayer_times: schedule_from_days(&days),
    }
}

fn seconds_of_day(hour: u32, minute: u32, second: u32) -> u32 {
    hour * 3600 + minute * 60 + second
}

#[test]
fn the_local_clock_is_the_wall_clock() {
    let before = Local::now().time();
    let now = local_now();
    let after = Local::now().time();
    let before = seconds_of_day(before.hour(), before.minute(), before.second());
    let after = seconds_of_day(after.hour(), after.minute(), after.second());
    let now = seconds_of_day(now.hour() as u32, now.minute() as u32, now.second() as u32);
    if before <= after {
        assert!(before <= now && now <= after);
    } else {
        // midnight has passed between the readings
        assert!(before <= now || now <= after);
    }
}

#[test]
fn the_clock_face_reads_as_a_time() {
    let now = local_now();
    let face = now.hour_minute_text();
    assert_eq!(face.chars().count(), 5);
    assert_eq!(parse_time_text(&face), Some((now.hour(), now.minute())));
    let half_past_nine = vaktisalah::clock::ClockTime::new(9, 5, 59).unwrap();
    assert_eq!(half_past_nine.hour_minute_text(), "09:05");
    assert_eq!(vaktisalah::clock::ClockTime::new(23, 59, 0).unwrap().hour_minute_text(), "23:59");
    assert_eq!(vaktisalah::clock::ClockTime::new(0, 0, 0).unwrap().hour_minute_text(), "00:00");
}

#[test]
fn a_schedule_with_today_and_tomorrow_is_valid_now() {
    let before = Utc::now();
    let keys = |at: chrono::DateTime<Utc>| {
        vec![
            at.format("%d.%m.%Y").to_string(),
            at.checked_add_days(Days::new(1)).unwrap().format("%d.%m.%Y").to_string(),
        ]
    };
    let mut all = keys(before);
    let valid_before = is_prayer_times_valid(&preferences_with(all.clone()));
    let after = Utc::now();
    if before.date_naive() == after.date_naive() {
        assert!(valid_before);
    }
    all.extend(keys(after));
    assert!(is_prayer_times_valid(&preferences_with(all.clone())) || Utc::now().date_naive() != after.date_naive());
    let today = get_prayer_times_with_date(&preferences_with(all.clone()), 0);
    assert!(today.is_some() || Utc::now().date_naive() != after.date_naive());
    // yesterday and today do not serve
    let stale = vec![
        before.checked_sub_days(Days::new(1)).unwrap().format("%d.%m.%Y").to_string(),
        before.format("%d.%m.%Y").to_string(),
    ];
    assert!(!is_prayer_times_valid(&preferences_with(stale)) || Utc::now().date_naive() != before.date_naive());
}

#[test]
fn the_keys_are_what_the_date_format_writes() {
    for seconds in [0i64, 86_399, 951_782_400, 1_700_000_000, 1_709_164_800, 4_102_444_799, -1, -86_401] {
        let at = Utc.timestamp_opt(seconds, 0).unwrap();
        assert_eq!(utc_date_key(seconds, 0), Some(at.format("%d.%m.%Y").to_string()));
        assert_eq!(date_key(at.year(), at.month(), at.day()), Some(at.format("%d.%m.%Y").to_string()));
        for days in [1u64, 2, 28, 29, 30, 31, 365, 366] {
            let later = at.checked_add_days(Days::new(days)).unwrap();
            assert_eq!(utc_date_key(seconds, days), Some(later.format("%d.%m.%Y").to_string()));
        }
    }
}
