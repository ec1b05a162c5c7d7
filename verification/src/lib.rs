//! A library that organizes a local collection of audio files into album
//! clusters and prepares each cluster for matching against a remote metadata
//! catalog.
//!
//! The verified core covers the deterministic grouping of file records into
//! album clusters, the sort order inside each cluster, the rate-limit
//! bookkeeping of the lookup stage, the bounded hand-off queue between the
//! directory walker and the lookup stage, and the interactive state machine
//! that merges walker progress, lookup events and user input.
//!
//! Filesystem traversal, tag decoding, the remote catalog client and the
//! terminal renderer are thin collaborators around this library; they hand
//! plain values in and take plain values back.

pub mod app;
pub mod cluster;
pub mod codecs;
pub mod lookup;
pub mod metadata;
pub mod models;
pub mod paths;
pub mod queue;
pub mod sorting;
pub mod textfmt;
pub mod throttle;
