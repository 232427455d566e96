//! Chunked streaming transfer protocol of a video transcoding service.
//!
//! A client splits a source file into request frames; the server stages the
//! payload, derives metadata and a thumbnail, and answers with one multiplexed
//! sequence of response frames.  This crate holds the framing rules and the
//! per-call decisions of both ends; reading files and talking to the network
//! is left to the caller.

pub mod assembler;
pub mod builder;
pub mod chunking;
pub mod demux;
pub mod emitter;
pub mod error;
pub mod frame;
pub mod pipeline;
pub mod round_trip;
pub mod thumbnailer;
pub mod wire;
