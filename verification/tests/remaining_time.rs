use vaktisalah::clock::ClockTime;
use vaktisalah::prayer::{
    calculate_remaining_time, calculate_remaining_time_at, parse_time_text, Prayer,
    PrayerTimesWithDate, RemainingTime,
};

fn day(times: [&str; 6], key: &str) -> PrayerTimesWithDate {
    PrayerTimesWithDate {
        Imsak: times[0].to_string(),
        Gunes: times[1].to_string(),
        Ogle: times[2].to_string(),
        Ikindi: times[3].to_string(),
        Aksam: times[4].to_string(),
        Yatsi: times[5].to_string(),
        MiladiTarihKisa: key.to_string(),
        HicriTarihKisa: "1.1.1446".to_string(),
        HicriTarihUzun: "1 Muharrem 1446".to_string(),
    }
}

fn today() -> Option<PrayerTimesWithDate> {
    Some(day(["05:12", "06:45", "12:30", "15:50", "18:20", "19:45"], "14.11.2023"))
}

fn tomorrow() -> Option<PrayerTimesWithDate> {
    Some(day(["05:10", "06:46", "12:30", "15:49", "18:19", "19:44"], "15.11.2023"))
}

fn at(hour: u8, minute: u8, second: u8) -> ClockTime {
    ClockTime::new(hour, minute, second).unwrap()
}

fn left(hours: u8, minutes: u8, seconds: u8, next_prayer: Prayer) -> Option<RemainingTime> {
    Some(RemainingTime { hours, minutes, seconds, next_prayer })
}

#[test]
fn half_a_minute_before_maghrib() {
    let r = calculate_remaining_time_at(&today(), &tomorrow(), at(18, 19, 30));
    assert_eq!(r, left(0, 0, 30, Prayer::Maghrib));
}

#[test]
fn before_the_first_prayer_fajr_is_next() {
    let r = calculate_remaining_time_at(&today(), &tomorrow(), at(0, 0, 0));
    assert_eq!(r, left(5, 12, 0, Prayer::Fajr));
    let r = calculate_remaining_time_at(&today(), &tomorrow(), at(5, 11, 59));
    assert_eq!(r, left(0, 0, 1, Prayer::Fajr));
}

#[test]
fn after_isha_tomorrows_fajr_is_next() {
    let today = Some(day(["05:12", "06:45", "12:30", "15:50", "18:20", "22:00"], "14.11.2023"));
    let tomorrow = Some(day(["05:30", "06:46", "12:30", "15:49", "18:19", "19:44"], "15.11.2023"));
    let r = calculate_remaining_time_at(&today, &tomorrow, at(23, 59, 59));
    assert_eq!(r, left(5, 30, 1, Prayer::FajrNextDay));
    let r = calculate_remaining_time_at(&today, &tomorrow, at(22, 0, 0));
    assert_eq!(r, left(7, 30, 0, Prayer::FajrNextDay));
}

#[test]
fn the_same_inputs_give_the_same_result() {
    let first = calculate_remaining_time_at(&today(), &tomorrow(), at(13, 7, 21));
    let second = calculate_remaining_time_at(&today(), &tomorrow(), at(13, 7, 21));
    assert_eq!(first, second);
    assert_eq!(first, left(2, 42, 39, Prayer::Asr));
}

#[test]
fn a_prayer_in_its_own_minute_has_passed() {
    let today = Some(day(["05:30", "06:45", "12:30", "15:50", "18:20", "19:45"], "14.11.2023"));
    let r = calculate_remaining_time_at(&today, &tomorrow(), at(5, 30, 0));
    assert_eq!(r, left(1, 15, 0, Prayer::Sunrise));
    let r = calculate_remaining_time_at(&today, &tomorrow(), at(5, 30, 59));
    assert_eq!(r, left(1, 14, 1, Prayer::Sunrise));
    let r = calculate_remaining_time_at(&today, &tomorrow(), at(5, 29, 59));
    assert_eq!(r, left(0, 0, 1, Prayer::Fajr));
}

#[test]
fn each_slot_in_turn() {
    let cases = [
        (at(5, 12, 0), left(1, 33, 0, Prayer::Sunrise)),
        (at(6, 45, 0), left(5, 45, 0, Prayer::Dhuhr)),
        (at(12, 30, 0), left(3, 20, 0, Prayer::Asr)),
        (at(15, 50, 0), left(2, 30, 0, Prayer::Maghrib)),
        (at(18, 20, 0), left(1, 25, 0, Prayer::Isha)),
        (at(19, 45, 0), left(9, 25, 0, Prayer::FajrNextDay)),
    ];
    for (now, expected) in cases {
        assert_eq!(calculate_remaining_time_at(&today(), &tomorrow(), now), expected);
    }
}

#[test]
fn a_missing_day_gives_nothing() {
    assert_eq!(calculate_remaining_time_at(&None, &tomorrow(), at(10, 0, 0)), None);
    assert_eq!(calculate_remaining_time_at(&today(), &None, at(10, 0, 0)), None);
    assert_eq!(calculate_remaining_time_at(&None, &None, at(10, 0, 0)), None);
    assert_eq!(calculate_remaining_time(&None, &None), None);
}

#[test]
fn by_the_wall_clock_a_prayer_is_always_ahead() {
    let r = calculate_remaining_time(&today(), &tomorrow()).unwrap();
    assert!(r.hours < 48 && r.minutes < 60 && r.seconds < 60);
    assert!(r.hours as u32 * 3600 + r.minutes as u32 * 60 + r.seconds as u32 >= 1);
}

#[test]
fn the_longest_wait_is_under_two_days() {
    let today = Some(day(["00:00", "00:00", "00:00", "00:00", "00:00", "00:00"], "14.11.2023"));
    let tomorrow = Some(day(["23:59", "23:59", "23:59", "23:59", "23:59", "23:59"], "15.11.2023"));
    let r = calculate_remaining_time_at(&today, &tomorrow, at(0, 0, 0));
    assert_eq!(r, left(47, 59, 0, Prayer::FajrNextDay));
}

#[test]
fn time_texts() {
    assert_eq!(parse_time_text("05:12"), Some((5, 12)));
    assert_eq!(parse_time_text("23:59"), Some((23, 59)));
    assert_eq!(parse_time_text("00:00"), Some((0, 0)));
    assert_eq!(parse_time_text("19.45 (+1)"), Some((19, 45)));
    assert_eq!(parse_time_text("24:00"), None);
    assert_eq!(parse_time_text("12:60"), None);
    assert_eq!(parse_time_text("5:12"), None);
    assert_eq!(parse_time_text("0512"), None);
    assert_eq!(parse_time_text("ab:cd"), None);
    assert_eq!(parse_time_text("05\u{e9}12"), None);
    assert_eq!(parse_time_text(""), None);
}

#[test]
fn clock_readings() {
    assert!(ClockTime::new(23, 59, 59).is_some());
    assert!(ClockTime::new(24, 0, 0).is_none());
    assert!(ClockTime::new(0, 60, 0).is_none());
    assert!(ClockTime::new(0, 0, 60).is_none());
    let t = at(7, 8, 9);
    assert_eq!((t.hour(), t.minute(), t.second()), (7, 8, 9));
}

#[test]
fn slots_and_numbers() {
    let slots = [
        Prayer::Fajr,
        Prayer::Sunrise,
        Prayer::Dhuhr,
        Prayer::Asr,
        Prayer::Maghrib,
        Prayer::Isha,
        Prayer::FajrNextDay,
    ];
    for (i, slot) in slots.iter().enumerate() {
        assert_eq!(Prayer::from(i as u8), *slot);
        assert_eq!(slot.index(), i as u8);
    }
    assert_eq!(Prayer::from(7), Prayer::Fajr);
    assert_eq!(Prayer::from(255), Prayer::Fajr);
    assert_eq!(Prayer::default(), Prayer::Fajr);
}

#[test]
fn times_out_of_order_are_searched_as_they_stand() {
    let today = Some(day(["05:12", "06:45", "23:30", "15:50", "18:20", "22:00"], "14.11.2023"));
    let tomorrow = Some(day(["05:30", "06:46", "12:30", "15:49", "18:19", "19:44"], "15.11.2023"));
    let r = calculate_remaining_time_at(&today, &tomorrow, at(22, 30, 0));
    assert_eq!(r, left(1, 0, 0, Prayer::Dhuhr));
    let r = calculate_remaining_time_at(&today, &tomorrow, at(23, 30, 0));
    assert_eq!(r, left(6, 0, 0, Prayer::FajrNextDay));
}
