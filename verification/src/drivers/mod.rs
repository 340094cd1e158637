//! The sink drivers: a closed set of variants behind one dispatch surface.

pub mod cloudwatch;
pub mod loki;
pub mod stdout;

pub use cloudwatch::CloudWatchDriver;
pub use loki::LokiDriver;
pub use stdout::StdOutDriver;

use vstd::prelude::*;

verus! {

/// One configured sink. The set of sinks is fixed at build time, so dispatch
/// is a match over this closed set of variants.
pub enum LogDriver {
    CloudWatch(CloudWatchDriver),
    Loki(LokiDriver),
    StdOut(StdOutDriver),
}

} // verus!
