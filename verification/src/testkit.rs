//! Sample controllers and recognizers with fixed, observable behaviour:
//! enough to wire a whole context together and watch the scheduler work
//! without any real device behind it.

pub mod controllers;
pub mod recognizers;
