//! Binary delta patch containers: a versioned, backward-compatible framing
//! with optional digests, free-form metadata and a reverse delta; the
//! generation, application and inspection pipelines around an external
//! delta compressor; and a byte-level change preview for reporting.
//!
//! The pipelines work on whole in-memory buffers and hand whole buffers
//! back; streaming a delta or a result straight into a caller-supplied
//! sink is left to the caller.
#![allow(unused_imports)]
use vstd::prelude::*;

pub mod check;
pub mod checksum;
pub mod diff;
pub mod error;
pub mod format;
pub mod inspect;
pub mod level;
pub mod patch;
pub mod pipeline;
pub mod preview;
