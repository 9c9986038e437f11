//! In-memory sample store and Low-Latency HLS segmentation engine.

pub mod aac;
pub mod avc;
pub mod encode;
pub mod fragment;
pub mod hls;
pub mod init;
pub mod ingest;
pub mod laws;
pub mod manifest;
pub mod media;
pub mod model;
pub mod parse;
pub mod request;
pub mod respond;
pub mod sps;
pub mod store;
pub mod text;
pub mod timestamp;
pub mod uri;
pub mod wallclock;
