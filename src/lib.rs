//! Verified core of a growth-curve fitter that models a series as a sum of
//! logistic transitions plus an offset: the models' parameter layout and the
//! splicing of a separable solver's output into it, the windowing of the input
//! series, the ranking of randomised fits (failed starts discarded, NaN last),
//! and the order statistics behind the expanding-window quantiles.
#![allow(non_camel_case_types)]

pub mod ranking;
pub mod error;
pub mod params;
pub mod labels;
pub mod window;
pub mod package;
pub mod diagnostics;
