//! Synchronization of a chain's blocks and transactions into a store.
//!
//! The crate holds the decisions of two flows, a bounded backfill over a
//! range of block numbers and an open-ended live flow behind a feed of
//! headers, and the mapping of blocks and transactions to the flat records
//! that are stored. It performs no input or output itself: a flow hands its
//! driver one command at a time and takes the reply.

pub mod backfill;
pub mod backfill_laws;
pub mod backfill_run;
pub mod engine;
pub mod live;
pub mod live_laws;
pub mod live_run;
pub mod normalize;
pub mod raw;
pub mod record;
pub mod sink;
pub mod text;
pub mod world;
