//! A small verified library grown around a fixed-size worker pool: a FIFO job
//! queue, a pool model with exactly-once dispatch and graceful shutdown, and a
//! collection of verified helpers (text matching, searching, parsing, and
//! simple data types) that the surrounding programs use.

pub mod adder;
pub mod autocomplete;
pub mod basics;
pub mod cli;
pub mod closures;
pub mod config;
pub mod counter;
pub mod grep;
pub mod hello;
pub mod http;
pub mod ids;
pub mod iterators;
pub mod lifecycle;
pub mod logging;
pub mod pointers;
pub mod pool;
pub mod process;
pub mod queue;
pub mod redact;
mod strutil;
pub mod text;
pub mod types;

use vstd::prelude::*;

verus! {

} // verus!
