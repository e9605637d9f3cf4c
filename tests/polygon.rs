use stockburn::data::calendar::Timestamp;
use stockburn::data::polygon::{polygon_record, polygon_tick};

#[test]
fn polygon_fields_in_record_order() {
    let t = Timestamp { secs: 1_600_000_000 };
    let values = vec![
        Some(300.0),
        Some(39.5),
        Some(40.0),
        Some(40.5),
        Some(41.0),
        Some(39.0),
        Some(2.0),
    ];
    let tick = polygon_tick(t, &values, f64::NAN);
    assert_eq!(tick.t, t);
    assert_eq!(
        (tick.v, tick.vw, tick.o, tick.c, tick.h, tick.l, tick.n),
        (300.0, 39.5, 40.0, 40.5, 41.0, 39.0, 2.0)
    );
}

#[test]
fn polygon_unparsed_and_missing_fields_are_nan() {
    let t = Timestamp { secs: 0 };
    let tick = polygon_tick(t, &vec![Some(1.0), None, Some(3.0)], f64::NAN);
    assert_eq!(tick.v, 1.0);
    assert!(tick.vw.is_nan());
    assert_eq!(tick.o, 3.0);
    assert!(tick.c.is_nan() && tick.h.is_nan() && tick.l.is_nan() && tick.n.is_nan());
}

#[test]
fn polygon_extra_fields_are_ignored() {
    let t = Timestamp { secs: 60 };
    let values: Vec<Option<f64>> = (1..=9).map(|i| Some(i as f64)).collect();
    let tick = polygon_tick(t, &values, f64::NAN);
    assert_eq!(tick.n, 7.0);
    assert_eq!(tick.v, 1.0);
}

#[test]
fn polygon_record_reads_the_date() {
    let values = vec![Some(500.0), Some(40.25)];
    let tick = polygon_record("2020-10-12 14:31:00", "%Y-%m-%d %H:%M:%S", &values, f64::NAN).unwrap();
    assert_eq!(tick.t, Timestamp { secs: 1_602_513_060 });
    assert_eq!(tick.v, 500.0);
    assert_eq!(tick.vw, 40.25);
    assert!(tick.o.is_nan());
}

#[test]
fn polygon_record_drops_an_unreadable_date() {
    let values = vec![Some(1.0)];
    assert!(polygon_record("2020-13-12 14:31:00", "%Y-%m-%d %H:%M:%S", &values, f64::NAN).is_none());
    assert!(polygon_record("yesterday", "%Y-%m-%d %H:%M:%S", &values, f64::NAN).is_none());
}
