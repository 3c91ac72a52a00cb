use chrono::{DateTime, TimeDelta as ChronoDelta, Timelike, Utc};
use fundi::ids::Uuid;
use fundi::time::{elapsed_at_least, TimeDelta, Timestamp, MAX_SECS, MIN_SECS};

fn stamp(t: DateTime<Utc>) -> Timestamp {
    Timestamp::new(t.timestamp(), t.timestamp_subsec_nanos()).unwrap()
}

/// The span between two instants, found by bisection over windows.
fn elapsed(later: Timestamp, earlier: Timestamp) -> (i64, u32) {
    let passed = |total: i128| {
        let window = TimeDelta::new(total.div_euclid(1_000_000_000) as i64, total.rem_euclid(1_000_000_000) as u32).unwrap();
        elapsed_at_least(&later, &earlier, &window)
    };
    let mut low: i128 = -20_000_000_000_000 * 1_000_000_000;
    let mut high: i128 = 20_000_000_000_000 * 1_000_000_000;
    while high - low > 1 {
        let middle = (low + high).div_euclid(2);
        if passed(middle) {
            low = middle;
        } else {
            high = middle;
        }
    }
    (low.div_euclid(1_000_000_000) as i64, low.rem_euclid(1_000_000_000) as u32)
}

#[test]
fn range_of_instants_is_that_of_chrono() {
    assert_eq!(DateTime::<Utc>::MIN_UTC.timestamp(), MIN_SECS);
    assert_eq!(DateTime::<Utc>::MAX_UTC.timestamp(), MAX_SECS);
    assert!(Timestamp::new(MIN_SECS, 0).is_some());
    assert!(Timestamp::new(MIN_SECS - 1, 0).is_none());
    assert!(Timestamp::new(MAX_SECS, 1_999_999_999).is_some());
    assert!(Timestamp::new(MAX_SECS + 1, 0).is_none());
    assert!(Timestamp::new(0, 2_000_000_000).is_none());
}

#[test]
fn parts_of_an_instant_read_back() {
    let t = Timestamp::new(-5, 7).unwrap();
    assert_eq!(t.timestamp(), -5);
    assert_eq!(t.timestamp_subsec_nanos(), 7);
}

#[test]
fn spans_below_a_second_only() {
    assert!(TimeDelta::new(1, 999_999_999).is_some());
    assert!(TimeDelta::new(1, 1_000_000_000).is_none());
    assert_eq!(TimeDelta::new(30, 0).unwrap(), TimeDelta::seconds(30));
}

#[test]
fn elapsed_time_is_that_of_chrono() {
    let leap = |secs: i64, nanos: u32| {
        DateTime::<Utc>::from_timestamp(secs, 0).unwrap().naive_utc().with_nanosecond(nanos).unwrap().and_utc()
    };
    let instants = [
        leap(1_483_228_799, 0),
        leap(1_483_228_799, 1_500_000_000),
        leap(1_483_228_800, 0),
        leap(1_483_228_860, 250_000_000),
        leap(1_483_142_430, 1_999_999_999),
        leap(-1, 999_999_999),
        leap(-86_401, 1_000_000_000),
        leap(MIN_SECS, 0),
        leap(MAX_SECS, 999_999_999),
    ];
    for later in instants {
        for earlier in instants {
            let expected: ChronoDelta = later.signed_duration_since(earlier);
            let total = expected.num_seconds() as i128 * 1_000_000_000 + expected.subsec_nanos() as i128;
            let (secs, nanos) = elapsed(stamp(later), stamp(earlier));
            assert_eq!(secs as i128 * 1_000_000_000 + nanos as i128, total);
        }
    }
}

#[test]
fn leap_second_counts_once() {
    let before = Timestamp::new(1_483_228_799, 0).unwrap();
    let within = Timestamp::new(1_483_228_799, 1_500_000_000).unwrap();
    assert_eq!(elapsed(within, before), (1, 500_000_000));
    let noon = Timestamp::new(1_483_228_800 + 43_200, 0).unwrap();
    let morning_leap = Timestamp::new(1_483_228_800 + 59, 1_000_000_000).unwrap();
    assert_eq!(elapsed(noon, morning_leap), (43_200 - 59, 0));
}

#[test]
fn ids_are_written_and_laid_out_as_uuids() {
    let id = Uuid { bits: 0xa1a2a3a4b1b2c1c2d1d2d3d4d5d6d7d8 };
    assert_eq!(id.text(), "a1a2a3a4-b1b2-c1c2-d1d2-d3d4d5d6d7d8");
    assert_eq!(
        id.as_bytes(),
        [0xa1, 0xa2, 0xa3, 0xa4, 0xb1, 0xb2, 0xc1, 0xc2, 0xd1, 0xd2, 0xd3, 0xd4, 0xd5, 0xd6, 0xd7, 0xd8]
    );
    assert_eq!(Uuid { bits: 1 }.text(), "00000000-0000-0000-0000-000000000001");
    assert_ne!(Uuid { bits: 1 }.as_bytes(), Uuid { bits: 256 }.as_bytes());
}
