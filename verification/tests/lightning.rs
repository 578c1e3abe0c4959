use lightning_time::{
    Error, LightningTime, LightningTimeColorConfig, LightningTimeColors, Rgb, TimeOfDay,
};

#[test]
fn convert_to_lightning() {
    let lightning = LightningTime::from_time_of_day(12, 0, 0, 0);
    assert_eq!(
        lightning,
        LightningTime {
            bolts: 0x8,
            ..Default::default()
        }
    );

    assert_eq!(lightning.to_canonical_string(), "8~0~0|00");
    assert_eq!(lightning.to_stripped_string(), "8~0~0");

    assert_eq!(
        lightning.colors(&Default::default()),
        LightningTimeColors {
            bolt: Rgb {
                red: 0x80,
                green: 0xa1,
                blue: 0x00,
            },
            zap: Rgb {
                red: 0x32,
                green: 0x00,
                blue: 0xd6,
            },
            spark: Rgb {
                red: 0xf6,
                green: 0x85,
                blue: 0x00,
            },
        }
    );
}

#[test]
fn parse() {
    assert!(LightningTime::from_str("f~3~a|8c").is_ok());
    assert!(LightningTime::from_str("f~3~a|8").is_ok());
    assert!(LightningTime::from_str("f~3~a").is_ok());
    assert!(LightningTime::from_str("f~~|").is_err());
}

#[test]
fn convert_to_real() {
    let lightning = LightningTime {
        bolts: 0x8,
        ..Default::default()
    };

    let time = lightning.to_time_of_day();

    assert_eq!(
        time,
        TimeOfDay {
            hour: 12,
            minute: 0,
            second: 0,
            nanosecond: 0,
        }
    );

    let lightning = LightningTime {
        bolts: 0x8,
        charges: 0xa,
        ..Default::default()
    };

    let time = lightning.to_time_of_day();

    // Truncation of the fractional tick keeps the whole second exact.
    assert_eq!(time.second, 13);
}

#[test]
fn midnight_is_all_zero() {
    let t = LightningTime::from_time_of_day(0, 0, 0, 0);
    assert_eq!(
        t,
        LightningTime {
            bolts: 0,
            zaps: 0,
            sparks: 0,
            charges: 0,
            subcharges: 0,
        }
    );
    assert_eq!(t.to_canonical_string(), "0~0~0|00");
}

#[test]
fn digits_are_nibbles() {
    let samples = [
        (0u8, 0u8, 0u8, 0u32),
        (6, 0, 0, 0),
        (13, 37, 42, 123_456_789),
        (23, 59, 59, 999_999_999),
    ];
    for (h, m, s, ns) in samples {
        let t = LightningTime::from_time_of_day(h, m, s, ns);
        assert!(t.bolts <= 15);
        assert!(t.zaps <= 15);
        assert!(t.sparks <= 15);
        assert!(t.charges <= 15);
        assert!(t.subcharges <= 15);
    }
}

#[test]
fn quarter_day_and_last_tick() {
    let t = LightningTime::from_time_of_day(6, 0, 0, 0);
    assert_eq!(t, LightningTime::new(4, 0, 0, 0));

    let t = LightningTime::from_time_of_day(23, 59, 59, 999_999_999);
    assert_eq!(
        t,
        LightningTime {
            bolts: 0xf,
            zaps: 0xf,
            sparks: 0xf,
            charges: 0xf,
            subcharges: 0xf,
        }
    );
}

#[test]
fn parse_binds_middle_groups_swapped() {
    // The second parsed group is sparks and the third zaps.
    let t = LightningTime::from_str("f~3~a").unwrap();
    assert_eq!(
        t,
        LightningTime {
            bolts: 0xf,
            zaps: 0xa,
            sparks: 0x3,
            charges: 0,
            subcharges: 0,
        }
    );
    // Formatting that value emits bolts~zaps~sparks, so the text differs.
    assert_eq!(t.to_canonical_string(), "f~a~3|00");
}

#[test]
fn parse_defaults_missing_trailing_fields() {
    let t = LightningTime::from_str("f~3~a|8").unwrap();
    assert_eq!(t.charges, 0x8);
    assert_eq!(t.subcharges, 0);

    let t = LightningTime::from_str("f~3~a|8c").unwrap();
    assert_eq!(t.charges, 0x8);
    assert_eq!(t.subcharges, 0xc);

    let t = LightningTime::from_str("F~3~A|8C").unwrap();
    assert_eq!(t.bolts, 0xf);
    assert_eq!(t.zaps, 0xa);
    assert_eq!(t.subcharges, 0xc);
}

#[test]
fn parse_rejects_malformed_text() {
    assert_eq!(
        LightningTime::from_str("nope"),
        Err(Error::InvalidConversion)
    );
    assert!(LightningTime::from_str("").is_err());
    assert!(LightningTime::from_str("g~0~0").is_err());
    assert!(LightningTime::from_str("f~3~a|").is_err());
    assert!(LightningTime::from_str("f~3~a|8cd").is_err());
    assert!(LightningTime::from_str("xf~3~a").is_err());
    assert!(LightningTime::from_str("f~3~ax").is_err());
    assert!(LightningTime::from_str("f-3-a").is_err());
}

#[test]
fn exact_round_trip_without_subcharges() {
    let samples = [
        LightningTime::new(0, 0, 0, 0),
        LightningTime::new(1, 2, 3, 4),
        LightningTime::new(8, 0, 0, 0xa),
        LightningTime::new(0xf, 0xf, 0xf, 0xf),
    ];
    for t in samples {
        let time = t.to_time_of_day();
        let back = LightningTime::from_time_of_day(
            time.hour,
            time.minute,
            time.second,
            time.nanosecond,
        );
        assert_eq!(back, t);
    }
}

#[test]
fn round_trip_with_subcharges_loses_one_tick() {
    let t = LightningTime {
        bolts: 8,
        zaps: 0,
        sparks: 0,
        charges: 0,
        subcharges: 5,
    };
    let time = t.to_time_of_day();
    let back =
        LightningTime::from_time_of_day(time.hour, time.minute, time.second, time.nanosecond);
    assert_eq!(back, LightningTime { subcharges: 4, ..t });

    let t = LightningTime {
        subcharges: 1,
        ..Default::default()
    };
    let time = t.to_time_of_day();
    let back =
        LightningTime::from_time_of_day(time.hour, time.minute, time.second, time.nanosecond);
    assert_eq!(back, LightningTime::default());
}

#[test]
fn approximate_round_trip_keeps_second_within_one() {
    let samples = [
        (0u8, 0u8, 0u8, 0u32),
        (0, 0, 1, 0),
        (12, 0, 0, 0),
        (13, 37, 42, 123_456_789),
        (23, 59, 59, 999_999_999),
    ];
    for (h, m, s, ns) in samples {
        let t = LightningTime::from_time_of_day(h, m, s, ns);
        let time = t.to_time_of_day();
        let orig = h as u32 * 3600 + m as u32 * 60 + s as u32;
        let back = time.hour as u32 * 3600 + time.minute as u32 * 60 + time.second as u32;
        assert!(back <= orig);
        assert!(orig - back <= 1);
    }
}

#[test]
fn inverse_gives_exact_leftover_nanoseconds() {
    let t = LightningTime {
        bolts: 0x8,
        charges: 0xa,
        ..Default::default()
    };
    assert_eq!(
        t.to_time_of_day(),
        TimeOfDay {
            hour: 12,
            minute: 0,
            second: 13,
            nanosecond: 183_593_750,
        }
    );
}

#[test]
fn colors_pack_adjacent_digits() {
    let t = LightningTime::new(0x1, 0x2, 0x3, 0x4);
    let c = t.colors(&LightningTimeColorConfig::default());
    assert_eq!(c.bolt.red, 0x12);
    assert_eq!(c.bolt.green, 161);
    assert_eq!(c.bolt.blue, 0);
    assert_eq!(c.zap.green, 0x23);
    assert_eq!(c.zap.red, 50);
    assert_eq!(c.zap.blue, 214);
    assert_eq!(c.spark.blue, 0x34);
    assert_eq!(c.spark.red, 246);
    assert_eq!(c.spark.green, 133);
}

#[test]
fn now_yields_nibbles() {
    let t = LightningTime::now();
    assert!(t.bolts <= 15);
    assert!(t.zaps <= 15);
    assert!(t.sparks <= 15);
    assert!(t.charges <= 15);
    assert!(t.subcharges <= 15);
}
