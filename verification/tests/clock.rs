use statusline::time::{format_time, present_time, ClockReading, Weekday};

fn at(weekday: Weekday, month: u32, day: u32, hour: u32, minute: u32) -> ClockReading {
    ClockReading { weekday, month, day, hour, minute }
}

#[test]
fn a_morning_in_june() {
    assert_eq!(format_time(&at(Weekday::Wednesday, 6, 5, 9, 3)), "Wednesday, June 5 | 9:03");
}

#[test]
fn minute_has_two_digits() {
    assert_eq!(format_time(&at(Weekday::Monday, 1, 1, 0, 0)), "Monday, Jan 1 | 0:00");
    assert_eq!(format_time(&at(Weekday::Monday, 1, 1, 0, 9)), "Monday, Jan 1 | 0:09");
    assert_eq!(format_time(&at(Weekday::Monday, 1, 1, 0, 10)), "Monday, Jan 1 | 0:10");
    assert_eq!(format_time(&at(Weekday::Sunday, 12, 31, 23, 59)), "Sunday, Dec 31 | 23:59");
}

#[test]
fn day_and_hour_have_no_leading_zero() {
    assert_eq!(format_time(&at(Weekday::Friday, 3, 7, 7, 30)), "Friday, Mar 7 | 7:30");
    assert_eq!(format_time(&at(Weekday::Friday, 3, 17, 17, 30)), "Friday, Mar 17 | 17:30");
}

#[test]
fn every_weekday_by_its_full_name() {
    let days = [
        (Weekday::Monday, "Monday"),
        (Weekday::Tuesday, "Tuesday"),
        (Weekday::Wednesday, "Wednesday"),
        (Weekday::Thursday, "Thursday"),
        (Weekday::Friday, "Friday"),
        (Weekday::Saturday, "Saturday"),
        (Weekday::Sunday, "Sunday"),
    ];
    for (day, name) in days {
        assert_eq!(day.label(), name);
        assert_eq!(format_time(&at(day, 5, 20, 12, 0)), format!("{}, May 20 | 12:00", name));
    }
}

#[test]
fn every_month_by_its_short_name() {
    let names =
        ["Jan", "Feb", "Mar", "Apr", "May", "June", "July", "Aug", "Sept", "Oct", "Nov", "Dec"];
    for (index, name) in names.iter().enumerate() {
        let month = index as u32 + 1;
        assert_eq!(
            format_time(&at(Weekday::Tuesday, month, 2, 8, 15)),
            format!("Tuesday, {} 2 | 8:15", name)
        );
    }
}

#[test]
fn fields_out_of_a_clock_s_range_are_written_as_they_are() {
    assert_eq!(format_time(&at(Weekday::Thursday, 2, 0, 24, 100)), "Thursday, Feb 0 | 24:100");
    assert_eq!(
        format_time(&at(Weekday::Thursday, 2, u32::MAX, u32::MAX, u32::MAX)),
        "Thursday, Feb 4294967295 | 4294967295:4294967295"
    );
}

#[test]
fn present_time_has_the_shape_of_a_reading() {
    let now = present_time();
    let (date, time) = now.split_once(" | ").expect("a bar between date and time");
    let (weekday, rest) = date.split_once(", ").expect("a comma after the weekday");
    let days = ["Monday", "Tuesday", "Wednesday", "Thursday", "Friday", "Saturday", "Sunday"];
    assert!(days.contains(&weekday));
    let (month, day) = rest.split_once(' ').expect("a space after the month");
    let names =
        ["Jan", "Feb", "Mar", "Apr", "May", "June", "July", "Aug", "Sept", "Oct", "Nov", "Dec"];
    assert!(names.contains(&month));
    let day: u32 = day.parse().expect("a day");
    assert!(1 <= day && day <= 31);
    let (hour, minute) = time.split_once(':').expect("a colon in the time");
    assert_eq!(minute.len(), 2);
    let hour: u32 = hour.parse().expect("an hour");
    let minute: u32 = minute.parse().expect("a minute");
    assert!(hour <= 23);
    assert!(minute <= 59);
}
