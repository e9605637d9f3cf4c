use chrono::{NaiveDate, NaiveDateTime};
use stockburn::batch::{make_batches_impl, Batch};
use stockburn::data::calendar::Timestamp;
use stockburn::data::{Prediction, Tick, PREDICTION_NN_FIELDS, TICK_NN_FIELDS};
use stockburn::model::StockLSTMDesc;
use stockburn::streams::TickStreams;

fn base_time() -> NaiveDateTime {
    NaiveDate::from_ymd_opt(2020, 6, 22)
        .unwrap()
        .and_hms_opt(22, 59, 33)
        .unwrap()
}

fn at_minute(m: i64) -> Timestamp {
    Timestamp {
        secs: base_time().and_utc().timestamp() + 60 * m,
    }
}

#[allow(clippy::too_many_arguments)]
fn tick(m: i64, o: f32, h: f32, l: f32, c: f32, v: f32, vw: f32, n: f32) -> Tick<f32> {
    Tick {
        t: at_minute(m),
        o,
        h,
        l,
        c,
        v,
        vw,
        n,
    }
}

fn stock_1() -> Vec<Tick<f32>> {
    vec![
        tick(0, 40.0, 41.0, 39.0, 40.5, 300.0, 39.5, 2.0),
        tick(1, 40.5, 41.5, 38.0, 40.0, 500.0, 40.25, 4.0),
        tick(2, 40.0, 42.0, 39.5, 40.0, 1000.0, 41.25, 7.0),
        tick(3, 40.0, 41.0, 39.0, 40.5, 300.0, 39.5, 2.0),
        tick(5, 40.5, 41.0, 39.0, 40.0, 500.0, 40.5, 4.0),
    ]
}

fn stock_2() -> Vec<Tick<f32>> {
    vec![
        tick(1, 30.0, 31.0, 29.0, 30.5, 300.0, 39.5, 2.0),
        tick(2, 30.5, 31.5, 28.0, 30.0, 400.0, 40.25, 4.0),
        tick(3, 30.0, 32.0, 29.5, 30.0, 900.0, 31.25, 7.0),
        tick(4, 30.0, 32.0, 29.0, 30.5, 300.0, 39.5, 2.0),
        tick(5, 30.5, 31.0, 28.0, 30.0, 400.0, 40.25, 4.0),
        tick(6, 30.0, 31.0, 29.5, 30.0, 900.0, 31.25, 7.0),
    ]
}

fn additional_data() -> Vec<Vec<f32>> {
    vec![
        vec![1.0, 2.0, 400.0],
        vec![3.0, 4.0],
        vec![5.0, 6.0],
        vec![7.0, 8.0],
        vec![9.0, 10.0],
        vec![11.0, 12.0],
        vec![13.0, 14.0],
    ]
}

fn minute_feature(d: Timestamp) -> Vec<f32> {
    vec![d.minute() as f32]
}

fn scenario_batch() -> (Batch<f32>, TickStreams<f32>) {
    let mut streams = TickStreams::new(vec![stock_1(), stock_2()]);
    let batch = make_batches_impl(
        3,
        2,
        1,
        &additional_data(),
        minute_feature,
        &mut streams,
        4,
        2,
        0.0,
    )
    .unwrap();
    (batch, streams)
}

fn input_row(b: &Batch<f32>, r: usize) -> Vec<f32> {
    b.input[r * b.input_features..(r + 1) * b.input_features].to_vec()
}

fn output_row(b: &Batch<f32>, r: usize) -> Vec<f32> {
    b.output[r * b.output_features..(r + 1) * b.output_features].to_vec()
}

#[test]
fn batch_making_works() {
    let (input_data, output_data) = {
        let (b, _) = scenario_batch();
        (b.input_shape(), b.output_shape())
    };
    assert_eq!(input_data, (4, 2, 3 + 1 + 2 * TICK_NN_FIELDS));
    assert_eq!(output_data, (4, 2, 2 * PREDICTION_NN_FIELDS));
}

#[test]
fn batch_buffers_have_the_full_shape() {
    let (b, _) = scenario_batch();
    assert_eq!(b.input.len(), 4 * 2 * (3 + 1 + 14));
    assert_eq!(b.output.len(), 4 * 2 * 4);
}

#[test]
fn batch_first_row_follows_the_earliest_tick() {
    let (b, _) = scenario_batch();
    // Clock at minute 0 (22:59): only the first stream has a tick.
    let mut expected = vec![1.0, 2.0, 400.0, 59.0];
    expected.extend([40.0, 41.0, 39.0, 40.5, 300.0, 39.5, 2.0]);
    expected.extend([0.0; 7]);
    assert_eq!(input_row(&b, 0), expected);
    // After the row the clock is at minute 1, where both streams have a tick.
    assert_eq!(output_row(&b, 0), vec![40.0, 500.0, 30.5, 300.0]);
}

#[test]
fn batch_pads_and_cuts_auxiliary_features() {
    let (b, _) = scenario_batch();
    let row = input_row(&b, 1);
    assert_eq!(&row[0..3], &[3.0, 4.0, 0.0]);
    // Clock at minute 1 (23:00): both streams contribute.
    assert_eq!(row[3], 0.0);
    assert_eq!(&row[4..11], &[40.5, 41.5, 38.0, 40.0, 500.0, 40.25, 4.0]);
    assert_eq!(&row[11..18], &[30.0, 31.0, 29.0, 30.5, 300.0, 39.5, 2.0]);

    let mut streams = TickStreams::new(vec![stock_1()]);
    let b = make_batches_impl(2, 1, 0, &additional_data(), minute_feature, &mut streams, 1, 1, 0.0)
        .unwrap();
    assert_eq!(&b.input[0..2], &[1.0, 2.0]);
    assert_eq!(b.input_shape(), (1, 1, 2 + 7));
}

#[test]
fn batch_zero_fills_a_stream_without_a_tick() {
    let (b, _) = scenario_batch();
    // Row 4 is at minute 4: the first stream has no tick there.
    let row = input_row(&b, 4);
    assert_eq!(row[3], 3.0);
    assert_eq!(&row[4..11], &[0.0; 7]);
    assert_eq!(&row[11..18], &[30.0, 32.0, 29.0, 30.5, 300.0, 39.5, 2.0]);
    // Row 3 is at minute 3; after it the clock is at minute 4.
    assert_eq!(output_row(&b, 3), vec![0.0, 0.0, 30.5, 300.0]);
}

#[test]
fn batch_zero_fills_rows_past_the_data() {
    let (b, mut streams) = scenario_batch();
    // Rows 6 and 7: everything was consumed by row 6 (minute 6).
    let row = input_row(&b, 7);
    assert_eq!(&row[4..18], &[0.0; 14]);
    assert_eq!(output_row(&b, 6), vec![0.0; 4]);
    assert_eq!(output_row(&b, 7), vec![0.0; 4]);
    assert_eq!(streams.next(0), None);
    assert_eq!(streams.next(1), None);
}

#[test]
fn batch_is_none_when_every_stream_is_exhausted() {
    let mut streams: TickStreams<f32> = TickStreams::new(vec![vec![], vec![]]);
    let b = make_batches_impl(3, 2, 1, &additional_data(), minute_feature, &mut streams, 4, 2, 0.0);
    assert!(b.is_none());

    let (_, mut used) = scenario_batch();
    let again = make_batches_impl(3, 2, 1, &additional_data(), minute_feature, &mut used, 4, 2, 0.0);
    assert!(again.is_none());
}

#[test]
fn batch_leaves_unread_ticks_for_the_next_call() {
    let mut streams = TickStreams::new(vec![stock_1(), stock_2()]);
    let first = make_batches_impl(0, 2, 0, &vec![], minute_feature, &mut streams, 1, 2, 0.0).unwrap();
    assert_eq!(first.input_shape(), (1, 2, 14));
    // Two rows: minutes 0 and 1. The next tick of each stream is at minute 2.
    assert_eq!(streams.peek(0).unwrap().t, at_minute(2));
    assert_eq!(streams.peek(1).unwrap().t, at_minute(2));
    let second = make_batches_impl(0, 2, 0, &vec![], minute_feature, &mut streams, 1, 1, 0.0).unwrap();
    assert_eq!(&second.input[0..7], &[40.0, 42.0, 39.5, 40.0, 1000.0, 41.25, 7.0]);
}

#[test]
fn batch_clock_moves_to_a_stream_that_was_not_read() {
    // The first stream ends at minute 0; the second starts at minute 5.
    let mut streams = TickStreams::new(vec![
        vec![tick(0, 1.0, 1.0, 1.0, 1.0, 1.0, 1.0, 1.0)],
        vec![tick(5, 2.0, 2.0, 2.0, 2.0, 2.0, 2.0, 2.0)],
    ]);
    let b = make_batches_impl(0, 2, 1, &vec![], minute_feature, &mut streams, 1, 2, 0.0).unwrap();
    assert_eq!(output_row(&b, 0), vec![0.0, 0.0, 2.0, 2.0]);
    let row = input_row(&b, 1);
    assert_eq!(row[0], 4.0);
    assert_eq!(&row[1..8], &[0.0; 7]);
    assert_eq!(&row[8..15], &[2.0; 7]);
}

#[test]
fn batch_reads_equal_timestamps_one_row_each() {
    let mut streams = TickStreams::new(vec![vec![
        tick(0, 1.0, 1.0, 1.0, 1.0, 1.0, 1.0, 1.0),
        tick(0, 2.0, 2.0, 2.0, 2.0, 2.0, 2.0, 2.0),
    ]]);
    let b = make_batches_impl(0, 1, 0, &vec![], minute_feature, &mut streams, 2, 1, 0.0).unwrap();
    assert_eq!(b.input, vec![1.0, 1.0, 1.0, 1.0, 1.0, 1.0, 1.0, 2.0, 2.0, 2.0, 2.0, 2.0, 2.0, 2.0]);
    assert_eq!(b.output, vec![2.0, 2.0, 0.0, 0.0]);
}

#[test]
fn tick_pushes_its_fields_in_model_order() {
    let t = tick(0, 1.0, 2.0, 3.0, 4.0, 5.0, 6.0, 7.0);
    let mut input = vec![9.0];
    t.push_tick(&mut input);
    assert_eq!(input, vec![9.0, 1.0, 2.0, 3.0, 4.0, 5.0, 6.0, 7.0]);
    let p: Prediction<f32> = t.pred();
    assert_eq!(p, Prediction { c: 4.0, v: 5.0 });
    let mut output = vec![];
    p.push_pred(&mut output);
    assert_eq!(output, vec![4.0, 5.0]);
}

#[test]
fn model_feature_counts() {
    let desc = StockLSTMDesc {
        additional_inputs: 3,
        date_inputs: 1,
        stocks: 2,
        hidden: 16,
        layers: 2,
    };
    assert_eq!(desc.input_features(), Some(18));
    assert_eq!(desc.output_features(), Some(4));
    let huge = StockLSTMDesc {
        additional_inputs: 0,
        date_inputs: 0,
        stocks: usize::MAX / 3,
        hidden: 1,
        layers: 1,
    };
    assert_eq!(huge.input_features(), None);
    assert_eq!(huge.output_features(), Some(usize::MAX / 3 * 2));
}

#[test]
fn batch_row_clocks_never_move_back() {
    let as_f64 = |ticks: Vec<Tick<f32>>| -> Vec<Tick<f64>> {
        ticks
            .into_iter()
            .map(|t| Tick {
                t: t.t,
                v: t.v as f64,
                vw: t.vw as f64,
                o: t.o as f64,
                c: t.c as f64,
                h: t.h as f64,
                l: t.l as f64,
                n: t.n as f64,
            })
            .collect()
    };
    let mut streams = TickStreams::new(vec![as_f64(stock_1()), as_f64(stock_2())]);
    let clock = |t: Timestamp| vec![t.secs as f64];
    let b = make_batches_impl(0, 2, 1, &vec![], clock, &mut streams, 5, 2, 0.0).unwrap();
    let clocks: Vec<f64> = (0..10).map(|r| b.input[r * b.input_features]).collect();
    let base = at_minute(0).secs as f64;
    let minutes: Vec<f64> = clocks.iter().map(|c| (c - base) / 60.0).collect();
    assert_eq!(minutes, vec![0.0, 1.0, 2.0, 3.0, 4.0, 5.0, 6.0, 6.0, 6.0, 6.0]);
    assert!(clocks.windows(2).all(|w| w[0] <= w[1]));
}

#[test]
fn streams_peek_and_advance() {
    let mut streams = TickStreams::new(vec![stock_1(), vec![]]);
    assert_eq!(streams.len(), 2);
    assert_eq!(streams.peek(0).unwrap().t, at_minute(0));
    assert_eq!(streams.next(0).unwrap().t, at_minute(0));
    assert_eq!(streams.peek(0).unwrap().t, at_minute(1));
    assert_eq!(streams.peek(1), None);
    assert_eq!(streams.next(1), None);
    assert_eq!(streams.next_time(), Some(at_minute(1)));
}
