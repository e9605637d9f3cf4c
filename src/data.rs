//! Ticks, predictions and the trading calendar.
//!
//! The numeric fields of a tick are of a type `V` chosen by the caller (a
//! floating-point type in practice): the pipeline only moves them around.
use vstd::prelude::*;

pub mod calendar;
pub mod polygon;

use crate::data::calendar::Timestamp;

verus! {

/// The number of fields that a tick feeds into a model: v, vw, o, c, h, l, n.
/// Time is not fed in.
pub const TICK_NN_FIELDS: usize = 7;

/// The number of fields that a model predicts for a tick: c and v.
pub const PREDICTION_NN_FIELDS: usize = 2;

/// One time interval of trading in one stock.
#[derive(Clone, Copy, Debug, PartialEq)]
pub struct Tick<V> {
    /// The tick's timestamp in UTC
    pub t: Timestamp,
    /// The volume traded this tick
    pub v: V,
    /// The volume weighted average price of this tick
    pub vw: V,
    /// The opening price of this tick
    pub o: V,
    /// The closing price of this tick
    pub c: V,
    /// The high price of this tick
    pub h: V,
    /// The low price of this tick
    pub l: V,
    /// The number of trades which occured during this tick
    pub n: V,
}

/// The fields of a tick that a model predicts.
#[derive(Clone, Copy, Debug, PartialEq)]
pub struct Prediction<V> {
    /// Predicted closing price
    pub c: V,
    /// Predicted volume
    pub v: V,
}

/// The values that a tick feeds into a model, in their order.
pub open spec fn tick_fields<V>(tick: Tick<V>) -> Seq<V> {
    seq![tick.o, tick.h, tick.l, tick.c, tick.v, tick.vw, tick.n]
}

/// The values of a prediction, in their order.
pub open spec fn prediction_fields<V>(p: Prediction<V>) -> Seq<V> {
    seq![p.c, p.v]
}

impl<V: Copy> Tick<V> {
    /// Push the tick's values to an input vector: exactly `TICK_NN_FIELDS` of
    /// them.
    pub fn push_tick(&self, input: &mut Vec<V>)
        ensures
            final(input)@ == old(input)@ + tick_fields(*self),
    {
        input.push(self.o);
        input.push(self.h);
        input.push(self.l);
        input.push(self.c);
        input.push(self.v);
        input.push(self.vw);
        input.push(self.n);
        assert(input@ =~= old(input)@ + tick_fields(*self));
    }

    /// The prediction that corresponds to this tick.
    pub fn pred(&self) -> (r: Prediction<V>)
        ensures
            r == (Prediction { c: self.c, v: self.v }),
    {
        Prediction { c: self.c, v: self.v }
    }
}

impl<V: Copy> Prediction<V> {
    /// Push the prediction's values to an output vector: exactly
    /// `PREDICTION_NN_FIELDS` of them.
    pub fn push_pred(&self, output: &mut Vec<V>)
        ensures
            final(output)@ == old(output)@ + prediction_fields(*self),
    {
        output.push(self.c);
        output.push(self.v);
        assert(output@ =~= old(output)@ + prediction_fields(*self));
    }
}

} // verus!
