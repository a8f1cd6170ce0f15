//! Secure chunked transfer of tabular datasets and model coefficients,
//! together with the integer-valued core of the data pipeline that the
//! transferred artifacts feed.
//!
//! The library covers the record codec, the fixed-size chunking of a
//! serialized payload, per-chunk digest and whole-transfer MAC checking,
//! the server-side transfer session state machine, the deterministic
//! train/test split, and the client-side upload planner.  Cryptographic
//! primitives are called through a small trusted boundary; everything
//! around them is verified.
#![allow(non_snake_case)]

pub mod record;
pub mod names;
pub mod codec;
pub mod chunks;
pub mod integrity;
pub mod session;
pub mod dataset;
pub mod upload;
