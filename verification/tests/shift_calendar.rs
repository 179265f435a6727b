use regex::Regex;
use shiftboard::calendar::{current_shift, hours_str, now_vn, pre_day_from_int,
    start_end_of_shift, ts_per_hour_shift, DateShift, Shift};

#[test]
fn test_1() {
    // cargo test -- --nocapture
    println!("{}, {}", Shift::Day.to_string(), Shift::Night.to_string());
    assert_eq!(Shift::Day.to_string(), "DAY");
    assert_eq!(Shift::Night.to_string(), "NIGHT");
    println!("current time vn : {}", now_vn());
    println!("{:?}", pre_day_from_int(2024, 1, 1));
    println!("{:?}", pre_day_from_int(2022, 3, 1));
    println!("{:?}", pre_day_from_int(2024, 3, 1));
    assert_eq!(pre_day_from_int(2024, 1, 1), (2023, 12, 31));
    assert_eq!(pre_day_from_int(2022, 3, 1), (2022, 2, 28));
    assert_eq!(pre_day_from_int(2024, 3, 1), (2024, 2, 29));
    let cur = current_shift();
    println!("current date shift: {}, {}", cur.date(), cur.shift().to_string());
    println!("start_end_of_shift current: {:?}", start_end_of_shift(&current_shift()));
    println!("horus ts: {:?}", ts_per_hour_shift(&current_shift()));

    let x = start_end_of_shift(&DateShift(2024, 1, 5, Shift::Day));
    println!("start_end_of_shift 1-5-day: {x:?}",);
    println!("horus ts: {:?}", ts_per_hour_shift(&DateShift(2024, 1, 5, Shift::Day)));
    assert_eq!(x, (1704414600, 1704457800));

    let x = start_end_of_shift(&DateShift(2024, 1, 5, Shift::Night));
    println!("start_end_of_shift 1-5-night: {x:?}",);
    println!("horus ts: {:?}", ts_per_hour_shift(&DateShift(2024, 1, 5, Shift::Night)));
    assert_eq!(x, (1704457800, 1704501000));

    let re_date: Regex = Regex::new(r"^(202\d)-(0[1-9]|1[012])-(0[1-9]|[12]\d|3[01])$").unwrap();
    let r = re_date.captures("2024-01-06").unwrap();
    println!("{:?}", r);
    println!("{:?}", hours_str(Shift::Day, true));
    println!("{:?}", hours_str(Shift::Night, false));
}

#[test]
fn shift_classification_boundaries() {
    let r = shiftboard::calendar::shift_of_local(2024, 1, 5, 7, 29);
    assert_eq!(r, DateShift(2024, 1, 4, Shift::Night));
    let r = shiftboard::calendar::shift_of_local(2024, 1, 5, 7, 30);
    assert_eq!(r, DateShift(2024, 1, 5, Shift::Day));
    let r = shiftboard::calendar::shift_of_local(2024, 1, 5, 19, 29);
    assert_eq!(r, DateShift(2024, 1, 5, Shift::Day));
    let r = shiftboard::calendar::shift_of_local(2024, 1, 5, 19, 30);
    assert_eq!(r, DateShift(2024, 1, 5, Shift::Night));
    let r = shiftboard::calendar::shift_of_local(2024, 1, 5, 0, 0);
    assert_eq!(r, DateShift(2024, 1, 4, Shift::Night));
    let r = shiftboard::calendar::shift_of_local(2024, 1, 5, 23, 59);
    assert_eq!(r, DateShift(2024, 1, 5, Shift::Night));
}

#[test]
fn consecutive_shifts_tile_time() {
    // a DAY window ends where the same date's NIGHT window starts, and the
    // NIGHT window ends where the next date's DAY window starts
    let day = start_end_of_shift(&DateShift(2024, 1, 5, Shift::Day));
    let night = start_end_of_shift(&DateShift(2024, 1, 5, Shift::Night));
    let next_day = start_end_of_shift(&DateShift(2024, 1, 6, Shift::Day));
    assert_eq!(day.1, night.0);
    assert_eq!(night.1, next_day.0);
    // across a month end too
    let night = start_end_of_shift(&DateShift(2024, 2, 29, Shift::Night));
    let next_day = start_end_of_shift(&DateShift(2024, 3, 1, Shift::Day));
    assert_eq!(night.1, next_day.0);
}

#[test]
fn hour_buckets_tile_the_window() {
    let ds = DateShift(2024, 1, 5, Shift::Day);
    let (start, end) = start_end_of_shift(&ds);
    let buckets = ts_per_hour_shift(&ds);
    assert_eq!(buckets.len(), 12);
    assert_eq!(buckets[0].0 as i64, start);
    assert_eq!(buckets[11].1 as i64, end);
    for i in 0..12 {
        assert_eq!(buckets[i].1 - buckets[i].0, 3600);
        if i > 0 {
            assert_eq!(buckets[i].0, buckets[i - 1].1);
        }
    }
}

#[test]
fn hour_labels() {
    let day = hours_str(Shift::Day, true);
    assert_eq!(day.len(), 13);
    assert_eq!(day[0], " 7:30 -  8:30");
    assert_eq!(day[11], "18:30 - 19:30");
    assert_eq!(day[12], "SUM");
    let night = hours_str(Shift::Night, false);
    assert_eq!(night.len(), 12);
    assert_eq!(night[0], "19:30 - 20:30");
    assert_eq!(night[4], "23:30 -  0:30");
    assert_eq!(night[11], " 6:30 -  7:30");
}

#[test]
fn pre_day_and_pre_shift() {
    let ds = DateShift(2024, 3, 1, Shift::Day);
    let p = ds.pre_day();
    assert_eq!(p, DateShift(2024, 2, 29, Shift::Day));
    assert_eq!(p.date(), "2024-02-29");
    let ds = DateShift(2020, 1, 1, Shift::Night);
    assert_eq!(ds.pre_day(), DateShift(2019, 12, 31, Shift::Night));
    let ds = DateShift(2024, 1, 5, Shift::Day);
    assert_eq!(ds.pre_shift(), DateShift(2024, 1, 4, Shift::Night));
    let ds = DateShift(2024, 1, 5, Shift::Night);
    assert_eq!(ds.pre_shift(), DateShift(2024, 1, 5, Shift::Day));
}

#[test]
fn pre_day_string_forms() {
    assert_eq!(shiftboard::calendar::pre_day_str2date("2024", "03", "01"), "2024-02-29");
    assert_eq!(shiftboard::calendar::pre_day_str2date("2022", "03", "01"), "2022-02-28");
    assert_eq!(shiftboard::calendar::pre_day_str2date("2024", "01", "01"), "2023-12-31");
    let (d, s) = shiftboard::calendar::pre_shift_str2date("2024", "01", "04", "NIGHT");
    assert_eq!(d, "2024-01-04");
    assert_eq!(s, "DAY");
    let (d, s) = shiftboard::calendar::pre_shift_str2date("2024", "01", "04", "DAY");
    assert_eq!(d, "2024-01-03");
    assert_eq!(s, "NIGHT");
}
