//! A verified runtime for an eight-instruction tape language.
//!
//! A program is text over the alphabet `> < + - . , [ ]`; every other
//! character is commentary. Running one takes two stages: the resolver pairs
//! up the brackets into a jump table, then the executor interprets the
//! instructions against a tape of wrapping byte cells, one window of the tape
//! at a time.
//!
//! - [`program`]: the alphabet, and source text reduced to instructions.
//! - [`resolver`]: bracket matching and its failures.
//! - [`tape`]: the arithmetic of cells and of segment identities.
//! - [`executor`]: the step function of the machine. It does no input or
//!   output; it tells its host what to do.
//! - [`paging`]: the store for the segments that are not loaded.
//! - [`session`]: a host in memory, for whole runs on plain values.
//! - [`laws`]: what holds of every run.
//!
//! Every function is verified against its contract, with one exception:
//! the wrapper in [`paging`] around `serde_bytes::Bytes::new`, whose
//! contract is taken on trust.

pub mod executor;
pub mod laws;
pub mod paging;
pub mod program;
pub mod resolver;
pub mod session;
pub mod tape;
