//! The multi-stream batcher: merges several tick streams, each in its own
//! time, into fixed-shape batches aligned on a shared virtual clock.
//!
//! Each row of a batch holds, in order: the row's auxiliary features, cut or
//! zero-padded to their configured width; the time features computed from the
//! virtual clock, fitted the same way; and for each stream, in stream order,
//! its tick's `TICK_NN_FIELDS` values when its next tick is at the virtual
//! clock, zeros otherwise. Those ticks are consumed; then the clock moves to
//! the earliest next tick of any stream (it stays where it is once every
//! stream is exhausted), and the output row holds, for each stream, the
//! prediction of its next tick when that tick is at the new clock, zeros
//! otherwise.
use vstd::prelude::*;

use crate::data::calendar::Timestamp;
use crate::data::{
    prediction_fields, tick_fields, Prediction, Tick, PREDICTION_NN_FIELDS, TICK_NN_FIELDS,
};
use crate::streams::{advance_at, has_tick_at, next_time, TickStreams};

verus! {

/// `n` copies of `zero`.
pub open spec fn zeros<V>(n: nat, zero: V) -> Seq<V> {
    Seq::new(n, |i: int| zero)
}

/// `values` cut to `width`, or padded to it with `zero`.
pub open spec fn fit<V>(values: Seq<V>, width: nat, zero: V) -> Seq<V> {
    Seq::new(
        width,
        |i: int|
            if i < values.len() {
                values[i]
            } else {
                zero
            },
    )
}

/// What stream `s` writes to an input row at `clock`.
pub open spec fn stream_input<V>(
    ticks: Seq<Seq<Tick<V>>>,
    pos: Seq<usize>,
    clock: Timestamp,
    s: int,
    zero: V,
) -> Seq<V> {
    if has_tick_at(ticks, pos, s, clock) {
        tick_fields(ticks[s][pos[s] as int])
    } else {
        zeros(TICK_NN_FIELDS as nat, zero)
    }
}

/// What the first `k` streams write to an input row at `clock`.
pub open spec fn streams_input<V>(
    ticks: Seq<Seq<Tick<V>>>,
    pos: Seq<usize>,
    clock: Timestamp,
    k: int,
    zero: V,
) -> Seq<V>
    decreases k,
{
    if k <= 0 {
        seq![]
    } else {
        streams_input(ticks, pos, clock, k - 1, zero) + stream_input(ticks, pos, clock, k - 1, zero)
    }
}

/// What stream `s` writes to an output row at `clock`.
pub open spec fn stream_output<V>(
    ticks: Seq<Seq<Tick<V>>>,
    pos: Seq<usize>,
    clock: Timestamp,
    s: int,
    zero: V,
) -> Seq<V> {
    if has_tick_at(ticks, pos, s, clock) {
        let tick = ticks[s][pos[s] as int];
        prediction_fields(Prediction { c: tick.c, v: tick.v })
    } else {
        zeros(PREDICTION_NN_FIELDS as nat, zero)
    }
}

/// What the first `k` streams write to an output row at `clock`.
pub open spec fn streams_output<V>(
    ticks: Seq<Seq<Tick<V>>>,
    pos: Seq<usize>,
    clock: Timestamp,
    k: int,
    zero: V,
) -> Seq<V>
    decreases k,
{
    if k <= 0 {
        seq![]
    } else {
        streams_output(ticks, pos, clock, k - 1, zero) + stream_output(
            ticks,
            pos,
            clock,
            k - 1,
            zero,
        )
    }
}

/// The state after one row at `clock`: the streams whose next tick is at
/// `clock` move past it, and the clock moves to the earliest next tick of any
/// stream, or stays where it is once every stream is exhausted.
pub open spec fn step<V>(ticks: Seq<Seq<Tick<V>>>, pos: Seq<usize>, clock: Timestamp) -> (
    Seq<usize>,
    Timestamp,
) {
    let after = advance_at(ticks, pos, clock);
    match next_time(ticks, after, ticks.len() as int) {
        Some(t) => (after, t),
        None => (after, clock),
    }
}

/// The positions and the clock after `r` rows from `pos` and `clock`.
pub open spec fn state_at<V>(
    ticks: Seq<Seq<Tick<V>>>,
    pos: Seq<usize>,
    clock: Timestamp,
    r: nat,
) -> (Seq<usize>, Timestamp)
    decreases r,
{
    if r == 0 {
        (pos, clock)
    } else {
        let prev = state_at(ticks, pos, clock, (r - 1) as nat);
        step(ticks, prev.0, prev.1)
    }
}

/// The auxiliary features given for row `r`: none past the last one given.
pub open spec fn additional_row<V>(additional: Seq<Vec<V>>, r: int) -> Seq<V> {
    if 0 <= r < additional.len() {
        additional[r]@
    } else {
        seq![]
    }
}

/// The number of values in an input row.
pub open spec fn input_width(stocks: nat, additional_inputs: nat, date_inputs: nat) -> nat {
    stocks * (TICK_NN_FIELDS as nat) + additional_inputs + date_inputs
}

/// The number of values in an output row.
pub open spec fn output_width(stocks: nat) -> nat {
    stocks * (PREDICTION_NN_FIELDS as nat)
}

/// Input row `row`, where `dates[row]` holds the time features computed for
/// it.
pub open spec fn input_row<V>(
    ticks: Seq<Seq<Tick<V>>>,
    pos: Seq<usize>,
    clock: Timestamp,
    additional: Seq<Vec<V>>,
    dates: Seq<Vec<V>>,
    additional_inputs: nat,
    date_inputs: nat,
    zero: V,
    row: nat,
) -> Seq<V> {
    let st = state_at(ticks, pos, clock, row);
    fit(additional_row(additional, row as int), additional_inputs, zero) + fit(
        dates[row as int]@,
        date_inputs,
        zero,
    ) + streams_input(ticks, st.0, st.1, ticks.len() as int, zero)
}

/// The first `r` input rows.
pub open spec fn batch_input<V>(
    ticks: Seq<Seq<Tick<V>>>,
    pos: Seq<usize>,
    clock: Timestamp,
    additional: Seq<Vec<V>>,
    dates: Seq<Vec<V>>,
    additional_inputs: nat,
    date_inputs: nat,
    zero: V,
    r: nat,
) -> Seq<V>
    decreases r,
{
    if r == 0 {
        seq![]
    } else {
        let row = (r - 1) as nat;
        batch_input(ticks, pos, clock, additional, dates, additional_inputs, date_inputs, zero, row)
            + input_row(
            ticks,
            pos,
            clock,
            additional,
            dates,
            additional_inputs,
            date_inputs,
            zero,
            row,
        )
    }
}

/// Output row `row`: written at the state after the row.
pub open spec fn output_row<V>(
    ticks: Seq<Seq<Tick<V>>>,
    pos: Seq<usize>,
    clock: Timestamp,
    zero: V,
    row: nat,
) -> Seq<V> {
    let st = state_at(ticks, pos, clock, row + 1);
    streams_output(ticks, st.0, st.1, ticks.len() as int, zero)
}

/// The first `r` output rows.
pub open spec fn batch_output<V>(
    ticks: Seq<Seq<Tick<V>>>,
    pos: Seq<usize>,
    clock: Timestamp,
    zero: V,
    r: nat,
) -> Seq<V>
    decreases r,
{
    if r == 0 {
        seq![]
    } else {
        let row = (r - 1) as nat;
        batch_output(ticks, pos, clock, zero, row) + output_row(ticks, pos, clock, zero, row)
    }
}

/// What stream `s` writes to input row `r`.
pub open spec fn input_block<V>(
    ticks: Seq<Seq<Tick<V>>>,
    pos: Seq<usize>,
    clock: Timestamp,
    r: nat,
    s: int,
    zero: V,
) -> Seq<V> {
    let st = state_at(ticks, pos, clock, r);
    stream_input(ticks, st.0, st.1, s, zero)
}

/// What stream `s` writes to output row `r`: at the state after the row.
pub open spec fn output_block<V>(
    ticks: Seq<Seq<Tick<V>>>,
    pos: Seq<usize>,
    clock: Timestamp,
    r: nat,
    s: int,
    zero: V,
) -> Seq<V> {
    let st = state_at(ticks, pos, clock, r + 1);
    stream_output(ticks, st.0, st.1, s, zero)
}

/// One batch: `batch_size` sequences of `sequence_length` rows, laid out row
/// after row, with `input_features` values per input row and
/// `output_features` per output row.
pub struct Batch<V> {
    pub input: Vec<V>,
    pub output: Vec<V>,
    pub batch_size: usize,
    pub sequence_length: usize,
    pub input_features: usize,
    pub output_features: usize,
}

impl<V> Batch<V> {
    /// The shape of the input: batch, sequence, features.
    pub fn input_shape(&self) -> (r: (usize, usize, usize))
        ensures
            r == (self.batch_size, self.sequence_length, self.input_features),
    {
        (self.batch_size, self.sequence_length, self.input_features)
    }

    /// The shape of the output: batch, sequence, features.
    pub fn output_shape(&self) -> (r: (usize, usize, usize))
        ensures
            r == (self.batch_size, self.sequence_length, self.output_features),
    {
        (self.batch_size, self.sequence_length, self.output_features)
    }
}

fn push_zeros<V: Copy>(out: &mut Vec<V>, n: usize, zero: V)
    ensures
        final(out)@ == old(out)@ + zeros(n as nat, zero),
{
    let mut i: usize = 0;
    while i < n
        invariant
            i <= n,
            out@ == old(out)@ + zeros(i as nat, zero),
        decreases n - i,
    {
        out.push(zero);
        i = i + 1;
        assert(out@ =~= old(out)@ + zeros(i as nat, zero));
    }
}

fn push_fitted<V: Copy>(out: &mut Vec<V>, values: &Vec<V>, width: usize, zero: V)
    ensures
        final(out)@ == old(out)@ + fit(values@, width as nat, zero),
{
    let mut i: usize = 0;
    while i < width
        invariant
            i <= width,
            out@ == old(out)@ + fit(values@, width as nat, zero).subrange(0, i as int),
        decreases width - i,
    {
        if i < values.len() {
            out.push(values[i]);
        } else {
            out.push(zero);
        }
        i = i + 1;
        assert(out@ =~= old(out)@ + fit(values@, width as nat, zero).subrange(0, i as int));
    }
    assert(fit(values@, width as nat, zero).subrange(0, width as int) =~= fit(
        values@,
        width as nat,
        zero,
    ));
}

/// Writes each stream's input at `clock` and moves past the ticks written.
fn push_inputs_at<V: Copy>(
    streams: &mut TickStreams<V>,
    clock: Timestamp,
    input: &mut Vec<V>,
    zero: V,
)
    requires
        old(streams).wf(),
    ensures
        final(streams).wf(),
        final(streams).ticks() == old(streams).ticks(),
        final(streams).positions() == advance_at(
            old(streams).ticks(),
            old(streams).positions(),
            clock,
        ),
        final(input)@ == old(input)@ + streams_input(
            old(streams).ticks(),
            old(streams).positions(),
            clock,
            old(streams).ticks().len() as int,
            zero,
        ),
{
    let ghost ticks = streams.ticks();
    let ghost pos = streams.positions();
    let ghost after = advance_at(ticks, pos, clock);
    let k = streams.len();
    let mut s: usize = 0;
    while s < k
        invariant
            streams.wf(),
            streams.ticks() == ticks,
            k == ticks.len(),
            pos.len() == k,
            after == advance_at(ticks, pos, clock),
            s <= k,
            streams.positions().len() == k,
            forall|j: int| 0 <= j < s ==> streams.positions()[j] == after[j],
            forall|j: int| s <= j < k ==> streams.positions()[j] == pos[j],
            input@ == old(input)@ + streams_input(ticks, pos, clock, s as int, zero),
        decreases k - s,
    {
        let ghost before = input@;
        assert(streams.positions()[s as int] == pos[s as int]);
        match streams.peek(s) {
            Some(tick) => {
                if tick.t == clock {
                    tick.push_tick(input);
                    streams.next(s);
                } else {
                    push_zeros(input, TICK_NN_FIELDS, zero);
                }
            },
            None => {
                push_zeros(input, TICK_NN_FIELDS, zero);
            },
        }
        assert(input@ =~= before + stream_input(ticks, pos, clock, s as int, zero));
        assert(streams.positions()[s as int] == after[s as int]);
        s = s + 1;
    }
    assert(streams.positions() =~= after);
}

/// Writes each stream's output at `clock`, moving nothing.
fn push_outputs_at<V: Copy>(streams: &TickStreams<V>, clock: Timestamp, output: &mut Vec<V>, zero: V)
    requires
        streams.wf(),
    ensures
        final(output)@ == old(output)@ + streams_output(
            streams.ticks(),
            streams.positions(),
            clock,
            streams.ticks().len() as int,
            zero,
        ),
{
    let k = streams.len();
    let mut s: usize = 0;
    while s < k
        invariant
            streams.wf(),
            k == streams.ticks().len(),
            s <= k,
            output@ == old(output)@ + streams_output(
                streams.ticks(),
                streams.positions(),
                clock,
                s as int,
                zero,
            ),
        decreases k - s,
    {
        let ghost before = output@;
        match streams.peek(s) {
            Some(tick) => {
                if tick.t == clock {
                    tick.pred().push_pred(output);
                } else {
                    push_zeros(output, PREDICTION_NN_FIELDS, zero);
                }
            },
            None => {
                push_zeros(output, PREDICTION_NN_FIELDS, zero);
            },
        }
        assert(output@ =~= before + stream_output(
            streams.ticks(),
            streams.positions(),
            clock,
            s as int,
            zero,
        ));
        s = s + 1;
    }
}

/// Packages `batch_size` sequences of `sequence_length` rows from `stocks`
/// tick streams, `additional_inputs` auxiliary features per row (the rows of
/// `additional`, in order) and `date_inputs` time features per row (what
/// `time_func` computes from the row's virtual clock).
///
/// The virtual clock starts at the earliest next tick of any stream; `None`,
/// with no stream moved, where every stream is exhausted. Rows past the end of
/// the data are zero-filled: the batch always has its full shape.
pub fn make_batches_impl<V: Copy, DF: Fn(Timestamp) -> Vec<V>>(
    additional_inputs: usize,
    stocks: usize,
    date_inputs: usize,
    additional: &Vec<Vec<V>>,
    time_func: DF,
    tick_iterators: &mut TickStreams<V>,
    batch_size: usize,
    sequence_length: usize,
    zero: V,
) -> (r: Option<Batch<V>>)
    requires
        old(tick_iterators).wf(),
        old(tick_iterators).ticks().len() == stocks,
        forall|t: Timestamp| call_requires(time_func, (t,)),
        batch_size * sequence_length <= usize::MAX,
        stocks * TICK_NN_FIELDS + additional_inputs + date_inputs <= usize::MAX,
        (batch_size * sequence_length) * (stocks * TICK_NN_FIELDS + additional_inputs
            + date_inputs) <= usize::MAX,
        (batch_size * sequence_length) * (stocks * PREDICTION_NN_FIELDS) <= usize::MAX,
    ensures
        final(tick_iterators).wf(),
        final(tick_iterators).ticks() == old(tick_iterators).ticks(),
        ({
            let ticks = old(tick_iterators).ticks();
            let pos = old(tick_iterators).positions();
            let rows = (batch_size * sequence_length) as nat;
            match next_time(ticks, pos, stocks as int) {
                None => {
                    &&& r.is_none()
                    &&& final(tick_iterators).positions() == pos
                },
                Some(start) => {
                    let b = r->Some_0;
                    &&& r.is_some()
                    &&& b.batch_size == batch_size
                    &&& b.sequence_length == sequence_length
                    &&& b.input_features == stocks * TICK_NN_FIELDS + additional_inputs
                        + date_inputs
                    &&& b.output_features == stocks * PREDICTION_NN_FIELDS
                    &&& final(tick_iterators).positions() == state_at(ticks, pos, start, rows).0
                    &&& b.output@ == batch_output(ticks, pos, start, zero, rows)
                    &&& b.input@.len() == rows * b.input_features
                    &&& b.output@.len() == rows * b.output_features
                    &&& forall|r: nat, s: int|
                        #![trigger input_block(ticks, pos, start, r, s, zero)]
                        r < rows && 0 <= s < stocks ==> {
                            let at = r * b.input_features + additional_inputs + date_inputs + s
                                * TICK_NN_FIELDS;
                            let st = state_at(ticks, pos, start, r);
                            &&& b.input@.subrange(at, at + TICK_NN_FIELDS) == input_block(
                                ticks,
                                pos,
                                start,
                                r,
                                s,
                                zero,
                            )
                            &&& !has_tick_at(ticks, st.0, s, st.1) ==> b.input@.subrange(
                                at,
                                at + TICK_NN_FIELDS,
                            ) == zeros(TICK_NN_FIELDS as nat, zero)
                        }
                    &&& forall|r: nat, s: int|
                        #![trigger output_block(ticks, pos, start, r, s, zero)]
                        r < rows && 0 <= s < stocks ==> {
                            let at = r * b.output_features + s * PREDICTION_NN_FIELDS;
                            let st = state_at(ticks, pos, start, r + 1);
                            &&& b.output@.subrange(at, at + PREDICTION_NN_FIELDS) == output_block(
                                ticks,
                                pos,
                                start,
                                r,
                                s,
                                zero,
                            )
                            &&& !has_tick_at(ticks, st.0, s, st.1) ==> b.output@.subrange(
                                at,
                                at + PREDICTION_NN_FIELDS,
                            ) == zeros(PREDICTION_NN_FIELDS as nat, zero)
                        }
                    &&& exists|dates: Seq<Vec<V>>|
                        {
                            &&& dates.len() == rows
                            &&& forall|i: int|
                                0 <= i < rows ==> call_ensures(
                                    time_func,
                                    (state_at(ticks, pos, start, i as nat).1,),
                                    #[trigger] dates[i],
                                )
                            &&& b.input@ == batch_input(
                                ticks,
                                pos,
                                start,
                                additional@,
                                dates,
                                additional_inputs as nat,
                                date_inputs as nat,
                                zero,
                                rows,
                            )
                        }
                },
            }
        }),
{
    let ghost ticks = tick_iterators.ticks();
    let ghost pos = tick_iterators.positions();
    let rows = batch_size * sequence_length;
    let input_features = stocks * TICK_NN_FIELDS + additional_inputs + date_inputs;
    let output_features = stocks * PREDICTION_NN_FIELDS;
    let mut input: Vec<V> = Vec::with_capacity(rows * input_features);
    let mut output: Vec<V> = Vec::with_capacity(rows * output_features);
    let start = match tick_iterators.next_time() {
        Some(t) => t,
        None => {
            return None;
        },
    };
    let mut curr_t = start;
    let ghost mut dates: Seq<Vec<V>> = seq![];
    let empty: Vec<V> = Vec::new();
    let mut row: usize = 0;
    while row < rows
        invariant
            row <= rows,
            rows == batch_size * sequence_length,
            forall|t: Timestamp| call_requires(time_func, (t,)),
            tick_iterators.wf(),
            tick_iterators.ticks() == ticks,
            ticks.len() == stocks,
            empty@.len() == 0,
            tick_iterators.positions() == state_at(ticks, pos, start, row as nat).0,
            curr_t == state_at(ticks, pos, start, row as nat).1,
            dates.len() == row,
            forall|i: int|
                0 <= i < row ==> call_ensures(
                    time_func,
                    (state_at(ticks, pos, start, i as nat).1,),
                    #[trigger] dates[i],
                ),
            input@ == batch_input(
                ticks,
                pos,
                start,
                additional@,
                dates,
                additional_inputs as nat,
                date_inputs as nat,
                zero,
                row as nat,
            ),
            output@ == batch_output(ticks, pos, start, zero, row as nat),
        decreases rows - row,
    {
        let ghost st = state_at(ticks, pos, start, row as nat);
        if row < additional.len() {
            push_fitted(&mut input, &additional[row], additional_inputs, zero);
        } else {
            push_fitted(&mut input, &empty, additional_inputs, zero);
            assert(empty@ =~= additional_row(additional@, row as int));
        }
        let date = time_func(curr_t);
        push_fitted(&mut input, &date, date_inputs, zero);
        push_inputs_at(tick_iterators, curr_t, &mut input, zero);
        match tick_iterators.next_time() {
            Some(t) => {
                curr_t = t;
            },
            None => {},
        }
        push_outputs_at(tick_iterators, curr_t, &mut output, zero);
        proof {
            let old_dates = dates;
            dates = dates.push(date);
            assert(input@ =~= batch_input(
                ticks,
                pos,
                start,
                additional@,
                old_dates,
                additional_inputs as nat,
                date_inputs as nat,
                zero,
                row as nat,
            ) + input_row(
                ticks,
                pos,
                start,
                additional@,
                dates,
                additional_inputs as nat,
                date_inputs as nat,
                zero,
                row as nat,
            ));
            assert(forall|i: int| 0 <= i < row ==> dates[i] == old_dates[i]);
            assert(batch_input(
                ticks,
                pos,
                start,
                additional@,
                dates,
                additional_inputs as nat,
                date_inputs as nat,
                zero,
                row as nat,
            ) == batch_input(
                ticks,
                pos,
                start,
                additional@,
                old_dates,
                additional_inputs as nat,
                date_inputs as nat,
                zero,
                row as nat,
            )) by {
                lemma_batch_input_dates_prefix(
                    ticks,
                    pos,
                    start,
                    additional@,
                    old_dates,
                    dates,
                    additional_inputs as nat,
                    date_inputs as nat,
                    zero,
                    row as nat,
                );
            }
        }
        row = row + 1;
    }
    proof {
        let a = additional_inputs as nat;
        let d = date_inputs as nat;
        lemma_batch_input_rows(ticks, pos, start, additional@, dates, a, d, zero, rows as nat);
        lemma_batch_output_rows(ticks, pos, start, zero, rows as nat);
        assert forall|r: nat, s: int| r < rows && 0 <= s < stocks implies {
            let at = r * input_features + a + d + s * TICK_NN_FIELDS;
            input@.subrange(at, at + TICK_NN_FIELDS) == #[trigger] input_block(
                ticks,
                pos,
                start,
                r,
                s,
                zero,
            )
        } by {
            lemma_input_block(ticks, pos, start, additional@, dates, a, d, zero, rows as nat, r, s);
        }
        assert forall|r: nat, s: int| r < rows && 0 <= s < stocks implies {
            let at = r * output_features + s * PREDICTION_NN_FIELDS;
            output@.subrange(at, at + PREDICTION_NN_FIELDS) == #[trigger] output_block(
                ticks,
                pos,
                start,
                r,
                s,
                zero,
            )
        } by {
            lemma_output_block(ticks, pos, start, zero, rows as nat, r, s);
        }
    }
    Some(
        Batch {
            input,
            output,
            batch_size,
            sequence_length,
            input_features,
            output_features,
        },
    )
}

proof fn lemma_batch_input_dates_prefix<V>(
    ticks: Seq<Seq<Tick<V>>>,
    pos: Seq<usize>,
    clock: Timestamp,
    additional: Seq<Vec<V>>,
    dates1: Seq<Vec<V>>,
    dates2: Seq<Vec<V>>,
    additional_inputs: nat,
    date_inputs: nat,
    zero: V,
    r: nat,
)
    requires
        dates1.len() >= r,
        dates2.len() >= r,
        forall|i: int| 0 <= i < r ==> dates1[i] == dates2[i],
    ensures
        batch_input(ticks, pos, clock, additional, dates1, additional_inputs, date_inputs, zero, r)
            == batch_input(
            ticks,
            pos,
            clock,
            additional,
            dates2,
            additional_inputs,
            date_inputs,
            zero,
            r,
        ),
    decreases r,
{
    if r > 0 {
        lemma_batch_input_dates_prefix(
            ticks,
            pos,
            clock,
            additional,
            dates1,
            dates2,
            additional_inputs,
            date_inputs,
            zero,
            (r - 1) as nat,
        );
    }
}

proof fn lemma_streams_input_blocks<V>(
    ticks: Seq<Seq<Tick<V>>>,
    pos: Seq<usize>,
    clock: Timestamp,
    k: nat,
    zero: V,
)
    ensures
        streams_input(ticks, pos, clock, k as int, zero).len() == k * (TICK_NN_FIELDS as nat),
        forall|s: nat|
            s < k ==> streams_input(ticks, pos, clock, k as int, zero).subrange(
                s * TICK_NN_FIELDS,
                s * TICK_NN_FIELDS + TICK_NN_FIELDS,
            ) == #[trigger] stream_input(ticks, pos, clock, s as int, zero),
    decreases k,
{
    if k > 0 {
        let j = (k - 1) as nat;
        lemma_streams_input_blocks(ticks, pos, clock, j, zero);
        let prev = streams_input(ticks, pos, clock, j as int, zero);
        let all = streams_input(ticks, pos, clock, k as int, zero);
        assert forall|s: nat| s < k implies all.subrange(
            s * TICK_NN_FIELDS,
            s * TICK_NN_FIELDS + TICK_NN_FIELDS,
        ) == #[trigger] stream_input(ticks, pos, clock, s as int, zero) by {
            if s < j {
                assert(all.subrange(s * TICK_NN_FIELDS, s * TICK_NN_FIELDS + TICK_NN_FIELDS)
                    =~= prev.subrange(s * TICK_NN_FIELDS, s * TICK_NN_FIELDS + TICK_NN_FIELDS));
            } else {
                assert(all.subrange(s * TICK_NN_FIELDS, s * TICK_NN_FIELDS + TICK_NN_FIELDS)
                    =~= stream_input(ticks, pos, clock, s as int, zero));
            }
        }
    }
}

proof fn lemma_streams_output_blocks<V>(
    ticks: Seq<Seq<Tick<V>>>,
    pos: Seq<usize>,
    clock: Timestamp,
    k: nat,
    zero: V,
)
    ensures
        streams_output(ticks, pos, clock, k as int, zero).len() == k * (
        PREDICTION_NN_FIELDS as nat),
        forall|s: nat|
            s < k ==> streams_output(ticks, pos, clock, k as int, zero).subrange(
                s * PREDICTION_NN_FIELDS,
                s * PREDICTION_NN_FIELDS + PREDICTION_NN_FIELDS,
            ) == #[trigger] stream_output(ticks, pos, clock, s as int, zero),
    decreases k,
{
    if k > 0 {
        let j = (k - 1) as nat;
        lemma_streams_output_blocks(ticks, pos, clock, j, zero);
        let prev = streams_output(ticks, pos, clock, j as int, zero);
        let all = streams_output(ticks, pos, clock, k as int, zero);
        assert forall|s: nat| s < k implies all.subrange(
            s * PREDICTION_NN_FIELDS,
            s * PREDICTION_NN_FIELDS + PREDICTION_NN_FIELDS,
        ) == #[trigger] stream_output(ticks, pos, clock, s as int, zero) by {
            if s < j {
                assert(all.subrange(
                    s * PREDICTION_NN_FIELDS,
                    s * PREDICTION_NN_FIELDS + PREDICTION_NN_FIELDS,
                ) =~= prev.subrange(
                    s * PREDICTION_NN_FIELDS,
                    s * PREDICTION_NN_FIELDS + PREDICTION_NN_FIELDS,
                ));
            } else {
                assert(all.subrange(
                    s * PREDICTION_NN_FIELDS,
                    s * PREDICTION_NN_FIELDS + PREDICTION_NN_FIELDS,
                ) =~= stream_output(ticks, pos, clock, s as int, zero));
            }
        }
    }
}

proof fn lemma_block_of_prefix<V>(prev: Seq<V>, row: Seq<V>, w: int, n: int, r: int)
    requires
        prev.len() == n * w,
        row.len() == w,
        0 <= r < n,
        0 <= w,
    ensures
        (prev + row).subrange(r * w, r * w + w) == prev.subrange(r * w, r * w + w),
{
    assert(r * w + w <= n * w) by (nonlinear_arith)
        requires
            r < n,
            0 <= w,
    ;
    assert((prev + row).subrange(r * w, r * w + w) =~= prev.subrange(r * w, r * w + w));
}

proof fn lemma_batch_input_rows<V>(
    ticks: Seq<Seq<Tick<V>>>,
    pos: Seq<usize>,
    clock: Timestamp,
    additional: Seq<Vec<V>>,
    dates: Seq<Vec<V>>,
    additional_inputs: nat,
    date_inputs: nat,
    zero: V,
    n: nat,
)
    ensures
        batch_input(ticks, pos, clock, additional, dates, additional_inputs, date_inputs, zero, n).len()
            == n * input_width(ticks.len(), additional_inputs, date_inputs),
        forall|r: nat|
            r < n ==> batch_input(
                ticks,
                pos,
                clock,
                additional,
                dates,
                additional_inputs,
                date_inputs,
                zero,
                n,
            ).subrange(
                r * (input_width(ticks.len(), additional_inputs, date_inputs) as int),
                r * (input_width(ticks.len(), additional_inputs, date_inputs) as int)
                    + input_width(ticks.len(), additional_inputs, date_inputs),
            ) == #[trigger] input_row(
                ticks,
                pos,
                clock,
                additional,
                dates,
                additional_inputs,
                date_inputs,
                zero,
                r,
            ),
    decreases n,
{
    let w = input_width(ticks.len(), additional_inputs, date_inputs) as int;
    if n > 0 {
        let j = (n - 1) as nat;
        lemma_batch_input_rows(
            ticks,
            pos,
            clock,
            additional,
            dates,
            additional_inputs,
            date_inputs,
            zero,
            j,
        );
        let prev = batch_input(
            ticks,
            pos,
            clock,
            additional,
            dates,
            additional_inputs,
            date_inputs,
            zero,
            j,
        );
        let row = input_row(
            ticks,
            pos,
            clock,
            additional,
            dates,
            additional_inputs,
            date_inputs,
            zero,
            j,
        );
        let st = state_at(ticks, pos, clock, j);
        lemma_streams_input_blocks(ticks, st.0, st.1, ticks.len(), zero);
        assert(row.len() == w);
        assert(j * w + w == n * w) by (nonlinear_arith)
            requires
                j + 1 == n,
        ;
        assert forall|r: nat| r < n implies (prev + row).subrange(r * w, r * w + w)
            == #[trigger] input_row(
            ticks,
            pos,
            clock,
            additional,
            dates,
            additional_inputs,
            date_inputs,
            zero,
            r,
        ) by {
            if r < j {
                lemma_block_of_prefix(prev, row, w, j as int, r as int);
            } else {
                assert((prev + row).subrange(r * w, r * w + w) =~= row);
            }
        }
    }
}

proof fn lemma_batch_output_rows<V>(
    ticks: Seq<Seq<Tick<V>>>,
    pos: Seq<usize>,
    clock: Timestamp,
    zero: V,
    n: nat,
)
    ensures
        batch_output(ticks, pos, clock, zero, n).len() == n * output_width(ticks.len()),
        forall|r: nat|
            r < n ==> batch_output(ticks, pos, clock, zero, n).subrange(
                r * (output_width(ticks.len()) as int),
                r * (output_width(ticks.len()) as int) + output_width(ticks.len()),
            ) == #[trigger] output_row(ticks, pos, clock, zero, r),
    decreases n,
{
    let w = output_width(ticks.len()) as int;
    if n > 0 {
        let j = (n - 1) as nat;
        lemma_batch_output_rows(ticks, pos, clock, zero, j);
        let prev = batch_output(ticks, pos, clock, zero, j);
        let row = output_row(ticks, pos, clock, zero, j);
        let st = state_at(ticks, pos, clock, n);
        lemma_streams_output_blocks(ticks, st.0, st.1, ticks.len(), zero);
        assert(j * w + w == n * w) by (nonlinear_arith)
            requires
                j + 1 == n,
        ;
        assert forall|r: nat| r < n implies (prev + row).subrange(r * w, r * w + w)
            == #[trigger] output_row(ticks, pos, clock, zero, r) by {
            if r < j {
                lemma_block_of_prefix(prev, row, w, j as int, r as int);
            } else {
                assert((prev + row).subrange(r * w, r * w + w) =~= row);
            }
        }
    }
}

proof fn lemma_subrange_of_block<V>(x: Seq<V>, row: Seq<V>, a: int, c: int, n: int)
    requires
        0 <= a,
        0 <= c,
        0 <= n,
        c + n <= row.len(),
        a + row.len() <= x.len(),
        x.subrange(a, a + row.len()) == row,
    ensures
        x.subrange(a + c, a + c + n) == row.subrange(c, c + n),
{
    assert forall|i: int| 0 <= i < n implies #[trigger] x.subrange(a + c, a + c + n)[i]
        == row.subrange(c, c + n)[i] by {
        assert(row[c + i] == x.subrange(a, a + row.len())[c + i]);
    }
    assert(x.subrange(a + c, a + c + n) =~= row.subrange(c, c + n));
}

proof fn lemma_input_block<V>(
    ticks: Seq<Seq<Tick<V>>>,
    pos: Seq<usize>,
    clock: Timestamp,
    additional: Seq<Vec<V>>,
    dates: Seq<Vec<V>>,
    a: nat,
    d: nat,
    zero: V,
    rows: nat,
    r: nat,
    s: int,
)
    requires
        r < rows,
        0 <= s < ticks.len(),
    ensures
        ({
            let w = input_width(ticks.len(), a, d);
            let at = r * w + a + d + s * TICK_NN_FIELDS;
            batch_input(ticks, pos, clock, additional, dates, a, d, zero, rows).subrange(
                at,
                at + TICK_NN_FIELDS,
            ) == input_block(ticks, pos, clock, r, s, zero)
        }),
{
    let w = input_width(ticks.len(), a, d) as int;
    let all = batch_input(ticks, pos, clock, additional, dates, a, d, zero, rows);
    lemma_batch_input_rows(ticks, pos, clock, additional, dates, a, d, zero, rows);
    let row = input_row(ticks, pos, clock, additional, dates, a, d, zero, r);
    assert(r * w + w <= rows * w) by (nonlinear_arith)
        requires
            r < rows,
            0 <= w,
    ;
    assert(all.subrange(r * w, r * w + w) == row);
    let st = state_at(ticks, pos, clock, r);
    let streams = streams_input(ticks, st.0, st.1, ticks.len() as int, zero);
    lemma_streams_input_blocks(ticks, st.0, st.1, ticks.len(), zero);
    assert(streams.subrange(s * TICK_NN_FIELDS, s * TICK_NN_FIELDS + TICK_NN_FIELDS)
        == stream_input(ticks, st.0, st.1, (s as nat) as int, zero));
    assert(row.len() == w);
    assert(r * w + w <= rows * w) by (nonlinear_arith)
        requires
            r < rows,
            0 <= w,
    ;
    let c = a + d + s * TICK_NN_FIELDS;
    assert(row.subrange(c, c + TICK_NN_FIELDS) =~= streams.subrange(
        s * TICK_NN_FIELDS,
        s * TICK_NN_FIELDS + TICK_NN_FIELDS,
    ));
    lemma_subrange_of_block(all, row, r * w, c, TICK_NN_FIELDS as int);
}

proof fn lemma_output_block<V>(
    ticks: Seq<Seq<Tick<V>>>,
    pos: Seq<usize>,
    clock: Timestamp,
    zero: V,
    rows: nat,
    r: nat,
    s: int,
)
    requires
        r < rows,
        0 <= s < ticks.len(),
    ensures
        ({
            let w = output_width(ticks.len());
            let at = r * w + s * PREDICTION_NN_FIELDS;
            batch_output(ticks, pos, clock, zero, rows).subrange(at, at + PREDICTION_NN_FIELDS)
                == output_block(ticks, pos, clock, r, s, zero)
        }),
{
    let w = output_width(ticks.len()) as int;
    let all = batch_output(ticks, pos, clock, zero, rows);
    lemma_batch_output_rows(ticks, pos, clock, zero, rows);
    let row = output_row(ticks, pos, clock, zero, r);
    assert(r * w + w <= rows * w) by (nonlinear_arith)
        requires
            r < rows,
            0 <= w,
    ;
    assert(all.subrange(r * w, r * w + w) == row);
    let st = state_at(ticks, pos, clock, r + 1);
    lemma_streams_output_blocks(ticks, st.0, st.1, ticks.len(), zero);
    assert(row.subrange(s * PREDICTION_NN_FIELDS, s * PREDICTION_NN_FIELDS + PREDICTION_NN_FIELDS)
        == stream_output(ticks, st.0, st.1, (s as nat) as int, zero));
    assert(row.len() == w);
    assert(r * w + w <= rows * w) by (nonlinear_arith)
        requires
            r < rows,
            0 <= w,
    ;
    lemma_subrange_of_block(
        all,
        row,
        r * w,
        s * PREDICTION_NN_FIELDS,
        PREDICTION_NN_FIELDS as int,
    );
}

/// `next_time` is the earliest next tick of the first `k` streams: no stream
/// with a tick left has an earlier one, and some stream has its next tick
/// exactly there; `None` means that none of them has a tick left.
pub proof fn lemma_next_time_is_earliest<V>(ticks: Seq<Seq<Tick<V>>>, pos: Seq<usize>, k: int)
    requires
        0 <= k <= ticks.len(),
        pos.len() == ticks.len(),
    ensures
        next_time(ticks, pos, k) is None ==> forall|s: int|
            0 <= s < k ==> pos[s] >= #[trigger] ticks[s].len(),
        next_time(ticks, pos, k) matches Some(m) ==> forall|s: int|
            0 <= s < k && pos[s] < ticks[s].len() ==> m.secs <= (#[trigger] ticks[s][pos[s] as int]).t.secs,
        next_time(ticks, pos, k) is Some ==> exists|s: int|
            0 <= s < k && #[trigger] has_tick_at(ticks, pos, s, next_time(ticks, pos, k)->Some_0),
    decreases k,
{
    if k > 0 {
        let j = k - 1;
        lemma_next_time_is_earliest(ticks, pos, j);
        if pos[j] < ticks[j].len() {
            let t = ticks[j][pos[j] as int].t;
            match next_time(ticks, pos, j) {
                Some(m) => {
                    let w = choose|s: int| 0 <= s < j && #[trigger] has_tick_at(ticks, pos, s, m);
                    assert(has_tick_at(ticks, pos, w, m));
                    if m.secs <= t.secs {
                        assert(has_tick_at(ticks, pos, w, m));
                        assert(next_time(ticks, pos, k) == Some(m));
                        assert(has_tick_at(ticks, pos, w, next_time(ticks, pos, k)->Some_0));
                    } else {
                        assert(has_tick_at(ticks, pos, j, t));
                        assert(next_time(ticks, pos, k) == Some(t));
                        assert(has_tick_at(ticks, pos, j, next_time(ticks, pos, k)->Some_0));
                        assert forall|s: int|
                            0 <= s < k && pos[s] < ticks[s].len() implies t.secs <= (
                        #[trigger] ticks[s][pos[s] as int]).t.secs by {
                            if s < j {
                                assert(m.secs <= ticks[s][pos[s] as int].t.secs);
                            }
                        }
                    }
                },
                None => {
                    assert(has_tick_at(ticks, pos, j, t));
                    assert(next_time(ticks, pos, k) == Some(t));
                    assert(has_tick_at(ticks, pos, j, next_time(ticks, pos, k)->Some_0));
                    assert forall|s: int|
                        0 <= s < k && pos[s] < ticks[s].len() implies t.secs <= (
                    #[trigger] ticks[s][pos[s] as int]).t.secs by {
                        if s < j {
                            assert(pos[s] >= ticks[s].len());
                        }
                    }
                },
            }
        } else {
            match next_time(ticks, pos, j) {
                Some(m) => {
                    let w = choose|s: int| 0 <= s < j && #[trigger] has_tick_at(ticks, pos, s, m);
                    assert(has_tick_at(ticks, pos, w, m));
                    assert(next_time(ticks, pos, k) == Some(m));
                    assert(has_tick_at(ticks, pos, w, next_time(ticks, pos, k)->Some_0));
                },
                None => {},
            }
        }
    }
}

/// Every stream's ticks in non-decreasing time order.
pub open spec fn sorted_streams<V>(ticks: Seq<Seq<Tick<V>>>) -> bool {
    forall|s: int, i: int, j: int|
        0 <= s < ticks.len() && 0 <= i <= j < ticks[s].len() ==> (#[trigger] ticks[s][i]).t.secs
            <= (#[trigger] ticks[s][j]).t.secs
}

/// No stall: from a clock at the earliest next tick of any stream, the clock
/// of every later row is again the earliest next tick while any stream has a
/// tick left, and then some stream has its next tick at that clock, which the
/// row reads.
pub proof fn lemma_rows_make_progress<V>(
    ticks: Seq<Seq<Tick<V>>>,
    pos: Seq<usize>,
    start: Timestamp,
    r: nat,
)
    requires
        pos.len() == ticks.len(),
        forall|s: int| 0 <= s < ticks.len() ==> #[trigger] ticks[s].len() <= usize::MAX,
        next_time(ticks, pos, ticks.len() as int) == Some(start),
    ensures
        ({
            let st = state_at(ticks, pos, start, r);
            &&& st.0.len() == ticks.len()
            &&& next_time(ticks, st.0, ticks.len() as int) is Some ==> {
                &&& next_time(ticks, st.0, ticks.len() as int) == Some(st.1)
                &&& exists|s: int|
                    0 <= s < ticks.len() && #[trigger] has_tick_at(ticks, st.0, s, st.1)
                &&& exists|s: int|
                    0 <= s < ticks.len() && #[trigger] step(ticks, st.0, st.1).0[s] == st.0[s]
                        + 1
            }
        }),
    decreases r,
{
    if r > 0 {
        lemma_rows_make_progress(ticks, pos, start, (r - 1) as nat);
    }
    let st = state_at(ticks, pos, start, r);
    if let Some(m) = next_time(ticks, st.0, ticks.len() as int) {
        lemma_next_time_is_earliest(ticks, st.0, ticks.len() as int);
        let s = choose|s: int| 0 <= s < ticks.len() && #[trigger] has_tick_at(ticks, st.0, s, m);
        assert(st.0[s] < ticks[s].len());
        assert(step(ticks, st.0, st.1).0[s] == st.0[s] + 1);
    }
}

/// With every stream in time order, the virtual clock never moves back: each
/// row's clock is no earlier than the one before.
pub proof fn lemma_clock_non_decreasing<V>(
    ticks: Seq<Seq<Tick<V>>>,
    pos: Seq<usize>,
    start: Timestamp,
    r: nat,
)
    requires
        sorted_streams(ticks),
        pos.len() == ticks.len(),
        forall|s: int| 0 <= s < ticks.len() ==> #[trigger] ticks[s].len() <= usize::MAX,
        next_time(ticks, pos, ticks.len() as int) == Some(start),
    ensures
        state_at(ticks, pos, start, r).1.secs <= state_at(ticks, pos, start, r + 1).1.secs,
{
    let k = ticks.len() as int;
    let st = state_at(ticks, pos, start, r);
    lemma_rows_make_progress(ticks, pos, start, r);
    let after = advance_at(ticks, st.0, st.1);
    if let Some(m) = next_time(ticks, after, k) {
        lemma_next_time_is_earliest(ticks, after, k);
        let s = choose|s: int| 0 <= s < k && #[trigger] has_tick_at(ticks, after, s, m);
        match next_time(ticks, st.0, k) {
            Some(c) => {
                lemma_next_time_is_earliest(ticks, st.0, k);
                if has_tick_at(ticks, st.0, s, st.1) {
                    assert(st.0[s] < ticks[s].len());
                    assert(after[s] == st.0[s] + 1);
                    assert(ticks[s][st.0[s] as int].t.secs <= ticks[s][after[s] as int].t.secs);
                } else {
                    assert(after[s] == st.0[s]);
                    assert(c.secs <= ticks[s][st.0[s] as int].t.secs);
                }
            },
            None => {
                lemma_next_time_is_earliest(ticks, st.0, k);
                assert(st.0[s] >= ticks[s].len());
                assert(!has_tick_at(ticks, st.0, s, st.1));
            },
        }
    }
}

} // verus!
