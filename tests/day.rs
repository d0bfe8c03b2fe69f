use std::cmp::Ordering;

use everybody_codes::day::{all_days, quest_day_at, quest_day_in_november, quest_day_on, year_from_text, Day};
use everybody_codes::solutions::{part_one, part_three, part_two};

fn day(n: u8) -> Day {
    Day::new(n).unwrap()
}

#[test]
fn all_days_iterator() {
    let mut iter = all_days();

    assert_eq!(iter.next(), Some(day(1)));
    assert_eq!(iter.next(), Some(day(2)));
    assert_eq!(iter.next(), Some(day(3)));
    assert_eq!(iter.next(), Some(day(4)));
    assert_eq!(iter.next(), Some(day(5)));
    assert_eq!(iter.next(), Some(day(6)));
    assert_eq!(iter.next(), Some(day(7)));
    assert_eq!(iter.next(), Some(day(8)));
    assert_eq!(iter.next(), Some(day(9)));
    assert_eq!(iter.next(), Some(day(10)));
    assert_eq!(iter.next(), Some(day(11)));
    assert_eq!(iter.next(), Some(day(12)));
    assert_eq!(iter.next(), Some(day(13)));
    assert_eq!(iter.next(), Some(day(14)));
    assert_eq!(iter.next(), Some(day(15)));
    assert_eq!(iter.next(), Some(day(16)));
    assert_eq!(iter.next(), Some(day(17)));
    assert_eq!(iter.next(), Some(day(18)));
    assert_eq!(iter.next(), Some(day(19)));
    assert_eq!(iter.next(), Some(day(20)));
    assert_eq!(iter.next(), Some(day(21)));
    assert_eq!(iter.next(), Some(day(22)));
    assert_eq!(iter.next(), Some(day(23)));
    assert_eq!(iter.next(), Some(day(24)));
    assert_eq!(iter.next(), Some(day(25)));
    assert_eq!(iter.next(), None);
}

// The template's sample and answer files start out empty.
#[test]
fn test_part_one() {
    let result = part_one("");
    let expected: Option<u64> = "".trim().parse().ok();
    assert_eq!(result, expected);
}

#[test]
fn test_part_two() {
    let result = part_two("");
    let expected: Option<u64> = "".trim().parse().ok();
    assert_eq!(result, expected);
}

#[test]
fn test_part_three() {
    let result = part_three("");
    let expected: Option<u64> = "".trim().parse().ok();
    assert_eq!(result, expected);
}

#[test]
fn day_new_accepts_only_one_to_twenty_five() {
    assert!(Day::new(0).is_none());
    assert!(Day::new(26).is_none());
    assert!(Day::new(255).is_none());
    assert_eq!(Day::new(1).map(|d| d.into_inner()), Some(1));
    assert_eq!(Day::new(25).map(|d| d.into_inner()), Some(25));
}

#[test]
fn day_displays_two_digits() {
    assert_eq!(day(8).to_string(), "08");
    assert_eq!(day(17).to_string(), "17");
    assert!(day(8).eq_u8(8));
    assert!(!day(8).eq_u8(9));
    assert!(day(3) < day(12));
}

#[test]
fn day_parses_from_text() {
    assert_eq!(Day::from_str("8"), Ok(day(8)));
    assert_eq!(Day::from_str("+25"), Ok(day(25)));
    assert_eq!(Day::from_str("08"), Ok(day(8)));
    assert!(Day::from_str("0").is_err());
    assert!(Day::from_str("26").is_err());
    assert!(Day::from_str("300").is_err());
    assert!(Day::from_str("").is_err());
    assert!(Day::from_str(" 3").is_err());
    let err = Day::from_str("x").unwrap_err();
    assert_eq!(err.message(), "expecting a day number between 1 and 25");
}

#[test]
fn quest_days_in_november() {
    // November 2025 starts on a Saturday (weekday 5): the first Monday is the 3rd.
    assert_eq!(quest_day_in_november(1, 5), None);
    assert_eq!(quest_day_in_november(2, 5), None);
    assert_eq!(quest_day_in_november(3, 5), Some(day(1)));
    assert_eq!(quest_day_in_november(7, 5), Some(day(5)));
    assert_eq!(quest_day_in_november(8, 5), None);
    assert_eq!(quest_day_in_november(10, 5), Some(day(6)));
    assert_eq!(quest_day_in_november(28, 5), Some(day(20)));
    assert_eq!(quest_day_in_november(29, 5), None);
    // November starting on a Monday: the 1st is day one.
    assert_eq!(quest_day_in_november(1, 0), Some(day(1)));
    assert_eq!(quest_day_in_november(26, 0), Some(day(20)));
    assert_eq!(quest_day_in_november(27, 0), None);
}

#[test]
fn today_is_a_quest_day_or_none() {
    if let Some(d) = Day::today() {
        assert!(d.into_inner() >= 1 && d.into_inner() <= 20);
    }
}

#[test]
fn quest_days_need_november() {
    assert_eq!(quest_day_on(10, 3, 5), None);
    assert_eq!(quest_day_on(12, 3, 5), None);
    assert_eq!(quest_day_on(11, 3, 5), Some(day(1)));
    assert_eq!(quest_day_on(11, 1, 5), None);
}

#[test]
fn quest_days_at_moments() {
    // 2025-11-03 12:00 UTC: the first Monday of November 2025
    assert_eq!(quest_day_at(1_762_171_200, 0), Some(day(1)));
    // 2025-11-07 23:30 UTC is already Saturday the 8th at UTC+1
    assert_eq!(quest_day_at(1_762_558_200, 0), None);
    // 2025-11-07 22:30 UTC is still Friday the 7th at UTC+1
    assert_eq!(quest_day_at(1_762_554_600, 0), Some(day(5)));
    // 2025-10-31 12:00 UTC and 2025-12-01 12:00 UTC
    assert_eq!(quest_day_at(1_761_912_000, 0), None);
    assert_eq!(quest_day_at(1_764_590_400, 0), None);
    // out of chrono's range
    assert_eq!(quest_day_at(i64::MAX, 0), None);
}

#[test]
fn day_compares_by_number() {
    assert_eq!(day(8).partial_cmp_u8(9), Some(Ordering::Less));
    assert_eq!(day(8).partial_cmp_u8(8), Some(Ordering::Equal));
    assert_eq!(day(8).partial_cmp_u8(3), Some(Ordering::Greater));
    assert!(day(2).is_before(&day(10)));
    assert!(!day(10).is_before(&day(10)));
}

#[test]
fn day_text_round_trip() {
    for n in 1..=25u8 {
        assert_eq!(Day::from_str(&day(n).to_string()), Ok(day(n)));
    }
}

#[test]
fn years_from_text() {
    assert_eq!(year_from_text("2025"), Some(2025));
    assert_eq!(year_from_text("+2024"), Some(2024));
    assert_eq!(year_from_text("65536"), None);
    assert_eq!(year_from_text("twenty"), None);
    assert_eq!(year_from_text(""), None);
}
