//! Records one live spectator session: polls the server for newly
//! available media chunks and keyframes, recovers anything the reports
//! skipped over, stores every payload exactly once through a narrow sink
//! capability, and writes one finalization snapshot when the declared
//! final chunk arrives. The polling, gap-detection, backfill, dedup and
//! termination decisions are verified; the network and disk work around
//! them is performed by the surrounding program.

pub mod api;
pub mod recording;
