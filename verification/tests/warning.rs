use vaktisalah::prayer::{should_warn, Prayer, RemainingTime};
use vaktisalah::preferences::{Preferences, PreferencesJson};
use vaktisalah::string_map::StringMap;

fn preferences(warning_minutes: u8) -> PreferencesJson {
    PreferencesJson {
        preferences: Preferences {
            country: String::new(),
            city: String::new(),
            district: String::new(),
            district_id: String::new(),
            warning_minutes,
        },
        countries: StringMap::new(),
        countries_en: StringMap::new(),
        cities: StringMap::new(),
        districts: StringMap::new(),
        prayer_times: StringMap::new(),
    }
}

fn left(total: u32) -> RemainingTime {
    RemainingTime {
        hours: (total / 3600) as u8,
        minutes: ((total / 60) % 60) as u8,
        seconds: (total % 60) as u8,
        next_prayer: Prayer::Asr,
    }
}

#[test]
fn the_warning_fires_once_on_the_way_down() {
    let preferences = preferences(15);
    let mut fired = Vec::new();
    // from 0:16:01 down to 0:14:59
    let mut total = 16 * 60 + 1;
    while total >= 14 * 60 + 59 {
        if should_warn(&preferences, &left(total)) {
            fired.push(left(total));
        }
        total -= 1;
    }
    assert_eq!(fired, vec![RemainingTime { hours: 0, minutes: 15, seconds: 0, next_prayer: Prayer::Asr }]);
}

#[test]
fn the_warning_counts_hours_as_minutes() {
    let preferences = preferences(90);
    assert!(should_warn(&preferences, &RemainingTime { hours: 1, minutes: 30, seconds: 0, next_prayer: Prayer::Isha }));
    assert!(!should_warn(&preferences, &RemainingTime { hours: 1, minutes: 30, seconds: 1, next_prayer: Prayer::Isha }));
    assert!(!should_warn(&preferences, &RemainingTime { hours: 0, minutes: 30, seconds: 0, next_prayer: Prayer::Isha }));
    assert!(!should_warn(&preferences, &RemainingTime { hours: 1, minutes: 29, seconds: 0, next_prayer: Prayer::Isha }));
}

#[test]
fn the_warning_does_not_wrap_the_minutes() {
    // 4 hours 16 minutes are 256 minutes, which is not 0
    let preferences = preferences(0);
    assert!(!should_warn(&preferences, &RemainingTime { hours: 4, minutes: 16, seconds: 0, next_prayer: Prayer::Fajr }));
    assert!(should_warn(&preferences, &RemainingTime { hours: 0, minutes: 0, seconds: 0, next_prayer: Prayer::Fajr }));
}

#[test]
fn over_a_whole_day_each_threshold_fires_once() {
    for minutes in [1u8, 15, 60, 120] {
        let preferences = preferences(minutes);
        let fired = (0..86_400u32).filter(|total| should_warn(&preferences, &left(*total))).count();
        assert_eq!(fired, 1);
        assert!(should_warn(&preferences, &left(minutes as u32 * 60)));
    }
}

#[test]
fn the_countdown_and_the_labels() {
    assert_eq!(left(30).countdown_text(), "00:00:30");
    assert_eq!(left(5 * 3600 + 30 * 60 + 1).countdown_text(), "05:30:01");
    assert_eq!(left(47 * 3600 + 59 * 60 + 59).countdown_text(), "47:59:59");
    let odd = RemainingTime { hours: 255, minutes: 100, seconds: 9, next_prayer: Prayer::Fajr };
    assert_eq!(odd.countdown_text(), "255:100:09");
    assert_eq!(Prayer::Fajr.label(), "to Fajr");
    assert_eq!(Prayer::Sunrise.label(), "to Sunrise");
    assert_eq!(Prayer::Dhuhr.label(), "to Dhuhr");
    assert_eq!(Prayer::Asr.label(), "to Asr");
    assert_eq!(Prayer::Maghrib.label(), "to Maghrib");
    assert_eq!(Prayer::Isha.label(), "to Isha");
    assert_eq!(Prayer::FajrNextDay.label(), "to Fajr");
    assert_eq!(Prayer::FajrNextDay.label(), Prayer::Fajr.label());
    assert_eq!(Prayer::FajrNextDay.row(), 0);
    assert_eq!(Prayer::Isha.row(), 5);
}
