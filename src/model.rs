//! The description of a model: the numbers of features that it consumes and
//! produces, and the size of its recurrent layers.
use vstd::prelude::*;

use crate::batch::{input_width, output_width};
use crate::data::{PREDICTION_NN_FIELDS, TICK_NN_FIELDS};

verus! {

/// A descriptor for an instance of the stock model.
#[derive(Clone, Debug, PartialEq, Eq, Hash)]
pub struct StockLSTMDesc {
    /// The number of additional input neurons
    pub additional_inputs: usize,
    /// The number of date inputs
    pub date_inputs: usize,
    /// The number of stocks to predict
    pub stocks: usize,
    /// The size of the hidden LSTM layers to use
    pub hidden: usize,
    /// The number of hidden LSTM layers to use
    pub layers: usize,
}

impl StockLSTMDesc {
    /// The number of values in an input row of a batch for this model, or
    /// `None` where it does not fit in a `usize`.
    pub fn input_features(&self) -> (r: Option<usize>)
        ensures
            ({
                let w = input_width(
                    self.stocks as nat,
                    self.additional_inputs as nat,
                    self.date_inputs as nat,
                );
                if w <= usize::MAX {
                    r == Some(w as usize)
                } else {
                    r.is_none()
                }
            }),
    {
        let ticks = self.stocks.checked_mul(TICK_NN_FIELDS)?;
        let with_additional = ticks.checked_add(self.additional_inputs)?;
        with_additional.checked_add(self.date_inputs)
    }

    /// The number of values in an output row of a batch for this model, or
    /// `None` where it does not fit in a `usize`.
    pub fn output_features(&self) -> (r: Option<usize>)
        ensures
            ({
                let w = output_width(self.stocks as nat);
                if w <= usize::MAX {
                    r == Some(w as usize)
                } else {
                    r.is_none()
                }
            }),
    {
        self.stocks.checked_mul(PREDICTION_NN_FIELDS)
    }
}

} // verus!
