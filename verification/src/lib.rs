//! A capture-to-stream audio pipeline: raw samples are converted to a fixed
//! little-endian wire representation, gathered into capacity-bounded chunks,
//! and handed through an unbounded channel to a pull-based consumer.

pub mod audio_format;
pub mod encode;
pub mod chunk;
pub mod channel;
pub mod producer;
pub mod adapter;
pub mod session;
pub mod route;
pub mod headers;
