//! Call-stack reconstruction from a crashed process's captured stack memory.

pub mod context;
pub mod frame;
pub mod modules;
pub mod pointer;
pub mod stackwalk;
