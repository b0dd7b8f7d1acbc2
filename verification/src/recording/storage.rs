use vstd::prelude::*;

verus! {

/// Why a sink write failed, as the sink reported it.
pub struct StorageError {
    pub message: String,
}

/// The narrow capability through which payloads are kept durably. The
/// recorder marks an id as stored only after the sink confirmed the write,
/// and it never relies on anything else about the sink: a write may fail,
/// and a failed id is simply retried on a later backfill pass.
///
/// A sink must accept a write for an id it already holds; the recorder
/// avoids such writes through its ledger, but does not depend on the sink
/// guarding against them.
pub trait Storage {
    /// Durably writes the payload of one chunk under its id.
    fn store_game_data_chunk(&self, chunk_id: u32, data: Vec<u8>) -> Result<(), StorageError>;

    /// Durably writes the payload of one keyframe under its id.
    fn store_key_frame(&self, frame_id: u32, data: Vec<u8>) -> Result<(), StorageError>;

    /// A description of the backing location, for the final report.
    fn metadata(&self) -> String;
}

} // verus!
