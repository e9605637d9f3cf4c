//! Data pipeline for training sequence models on stock ticks: a trading
//! calendar, the numeric layout of ticks, and a batcher that merges several
//! irregular tick streams into fixed-shape, time-aligned batches.
//!
//! Every item here is verified. The numeric values of ticks are of a type
//! chosen by the caller and are only moved, never computed with.

pub mod batch;
pub mod data;
pub mod model;
pub mod streams;
