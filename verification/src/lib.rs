//! Descriptive statistics over a column of measurements.
//!
//! A measurement is carried as the bit pattern of an IEEE 754 binary64 number,
//! held in a `u64`. Everything the library decides (which values form a
//! sample, how a population is ordered, how often each value repeats, what a
//! frequency polygon spans, how the input and the command line are read and
//! the report is laid out) is decided on those bit patterns and on texts.

pub mod cli;
pub mod frequency;
pub mod input;
pub mod measurement;
pub mod pipeline;
pub mod polygon;
pub mod population;
pub mod report;
pub mod sampler;
pub mod series;
pub mod text;
