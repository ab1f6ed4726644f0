//! Build orchestrator for C-language eBPF programs.
//!
//! The library resolves a host build environment ([`context`]), constructs the
//! two toolchain invocations of the compile pipeline and classifies their
//! output ([`pipeline`]), and serializes a compiled object's bytes into a
//! generated source artifact, with a parser that recovers them ([`embed`]).
//! All process, environment and file I/O stays with the caller: the library
//! computes from plain values to plain values.

pub mod context;
pub mod embed;
pub mod pipeline;
