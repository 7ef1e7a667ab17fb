//! Timing samples of the CPU performance baseline.
//!
//! What is timed, and printing the report, stay with the program that runs
//! the baseline; this module records named samples.

use std::time::{Duration, Instant};
use vstd::prelude::*;

verus! {

/// The drawing the baseline runs on when none is given.
pub const DEFAULT_SAMPLE: &'static str = "samples/KD-1413-260825 Assir Poultry Internal Logistics.dwg";

#[verifier::external_type_specification]
#[verifier::external_body]
pub struct ExInstant(Instant);

/// One named timing from the baseline suite.
#[derive(Debug)]
pub struct Sample {
    pub name: &'static str,
    pub elapsed: Duration,
    pub detail: Option<String>,
}

impl Sample {
    pub fn new(name: &'static str, elapsed: Duration) -> (sample: Self)
        ensures
            sample.name == name,
            sample.elapsed == elapsed,
            sample.detail is None,
    {
        Sample { name, elapsed, detail: None }
    }

    pub fn with_detail(name: &'static str, elapsed: Duration, detail: String) -> (sample: Self)
        ensures
            sample.name == name,
            sample.elapsed == elapsed,
            sample.detail == Some(detail),
    {
        Sample { name, elapsed, detail: Some(detail) }
    }
}

/// The collected timings with the drawing they were taken on.
#[derive(Debug)]
pub struct BaselineReport {
    pub file: String,
    pub entities: u64,
    pub samples: Vec<Sample>,
}

/// std's `Instant::now`. Nothing is claimed of the moment it returns.
#[verifier::external_body]
fn clock_now() -> (now: Instant) {
    Instant::now()
}

/// std's `Instant::elapsed`. Nothing is claimed of the span it returns.
#[verifier::external_body]
fn elapsed_since(start: &Instant) -> (span: Duration) {
    start.elapsed()
}

/// Runs `f`, records how long it took under `name`, and hands back what it
/// returned.
pub fn timed<T, F: FnOnce() -> T>(name: &'static str, samples: &mut Vec<Sample>, f: F) -> (value: T)
    requires
        f.requires(()),
    ensures
        f.ensures((), value),
        final(samples)@.len() == old(samples)@.len() + 1,
        final(samples)@.take(old(samples)@.len() as int) == old(samples)@,
        final(samples)@.last().name == name,
        final(samples)@.last().detail is None,
{
    let start = clock_now();
    let value = f();
    let sample = Sample::new(name, elapsed_since(&start));
    samples.push(sample);
    assert(samples@.take(old(samples)@.len() as int) =~= old(samples)@);
    value
}

/// The path of the default baseline drawing.
pub fn default_sample_path() -> (path: String)
    ensures
        path@ == DEFAULT_SAMPLE@,
{
    DEFAULT_SAMPLE.to_string()
}

} // verus!
