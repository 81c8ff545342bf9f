//! Verified core of a subprocess streaming aggregator.
//!
//! An external command-line tool emits newline-delimited JSON events on its
//! standard output.  The modules below interpret those events, accumulate the
//! conversational output and session identifier, enforce the caps that bound
//! memory, and validate the final result.  The thin asynchronous shell that
//! spawns the subprocess and pumps its pipes lives outside the library and
//! calls into the verified functions here for every decision it makes.

pub mod aggregate;
pub mod event;
pub mod gemini;
pub mod json;
pub mod server;
pub mod text;
