//! The benchmarks, backends and setups that the runner measures, as read
//! from `benchmarks.yml`.

use vstd::prelude::*;

verus! {

/// One benchmark: a name and the path that the runner requests.
#[derive(Debug, Clone, PartialEq, Eq)]
pub struct Benchmark {
    pub name: String,
    pub path: String,
}

/// One backend that the frameworks fetch their data from.
#[derive(Debug, Clone, PartialEq, Eq)]
pub struct Backend {
    pub name: String,
    pub hostname: String,
    pub port: u16,
}

/// How hard and how long a benchmark runs.
#[derive(Debug, Clone, Copy, PartialEq, Eq, Structural)]
pub struct Setup {
    /// Concurrent connections.
    pub connections: u32,
    /// Duration in seconds.
    pub duration: u32,
}

/// The whole benchmark configuration.
#[derive(Debug, Clone, PartialEq, Eq)]
pub struct BenchmarkConfig {
    pub benchmarks: Vec<Benchmark>,
    pub backends: Vec<Backend>,
}

} // verus!
