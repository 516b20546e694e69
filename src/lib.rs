//! Recording engine of a file-I/O interposition profiler: the event
//! timeline, call forwarding with timing, and the per-process report.

pub mod event;
pub mod readback;
pub mod report;
pub mod store;
pub mod timing;
