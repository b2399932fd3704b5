//! The benchmark's configuration: command-line arguments and the
//! descriptions of benchmarks, backends, setups and frameworks.

pub mod argparse;
pub mod benchmark;
pub mod framework;
