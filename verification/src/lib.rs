//! Measurement bookkeeping and per-connection decisions of a TCP echo
//! benchmark, with their contracts.

pub mod decimal;
pub mod time_profiler;
pub mod echo;
pub mod peers;
pub mod bench;
pub mod text_laws;
