use vstd::prelude::*;

use crate::api::endpoints::GameMetaData;
use crate::api::models::SpectatorEndpoint;

verus! {

/// Ascending order without repetition.
pub open spec fn sorted_strict(s: Seq<u32>) -> bool {
    forall|i: int, j: int| 0 <= i < j < s.len() ==> s[i] < s[j]
}

/// An owned set of ids with exactly the two operations the ledger needs:
/// membership and insertion. Ids are held in ascending order, so the final
/// report lists them sorted without further work. Once a member, always a
/// member: nothing removes an id.
pub struct IdSet {
    ids: Vec<u32>,
}

impl View for IdSet {
    type V = Seq<u32>;

    closed spec fn view(&self) -> Seq<u32> {
        self.ids@
    }
}

impl IdSet {
    #[verifier::type_invariant]
    spec fn wf(&self) -> bool {
        sorted_strict(self.ids@)
    }

    pub fn new() -> (s: IdSet)
        ensures
            s@ == Seq::<u32>::empty(),
    {
        IdSet { ids: Vec::new() }
    }

    pub fn contains(&self, id: u32) -> (r: bool)
        ensures
            r == self@.contains(id),
    {
        let mut i: usize = 0;
        while i < self.ids.len()
            invariant
                i <= self.ids@.len(),
                forall|j: int| 0 <= j < i ==> self.ids@[j] != id,
            decreases self.ids@.len() - i,
        {
            if self.ids[i] == id {
                return true;
            }
            i = i + 1;
        }
        false
    }

    /// Adds an id; adding one the set already holds changes nothing.
    pub fn insert(&mut self, id: u32)
        ensures
            final(self)@.contains(id),
            forall|x: u32|
                final(self)@.contains(x) <==> (old(self)@.contains(x) || x == id),
            old(self)@.contains(id) ==> final(self)@ == old(self)@,
            !old(self)@.contains(id) ==> final(self)@.len() == old(self)@.len() + 1,
    {
        proof {
            use_type_invariant(&*self);
        }
        let mut ids: Vec<u32> = Vec::new();
        std::mem::swap(&mut ids, &mut self.ids);
        let mut idx: usize = 0;
        while idx < ids.len() && ids[idx] < id
            invariant
                idx <= ids@.len(),
                forall|j: int| 0 <= j < idx ==> ids@[j] < id,
                ids@ == old(self).ids@,
            decreases ids@.len() - idx,
        {
            idx = idx + 1;
        }
        if idx < ids.len() && ids[idx] == id {
            proof {
                assert(ids@.contains(id));
            }
            self.ids = ids;
            return;
        }
        proof {
            assert(forall|j: int| idx <= j < ids@.len() ==> ids@[j] > id) by {
                assert(forall|j: int| idx < j < ids@.len() ==> ids@[idx as int] < ids@[j]);
            }
        }
        ids.insert(idx, id);
        self.ids = ids;
        proof {
            let s_old = old(self).ids@;
            let s_new = self.ids@;
            assert forall|x: u32| s_new.contains(x) implies (s_old.contains(x) || x == id) by {
                let i = choose|i: int| 0 <= i < s_new.len() && s_new[i] == x;
                if i < idx {
                    assert(s_old[i] == x);
                } else if i > idx {
                    assert(s_old[i - 1] == x);
                }
            }
            assert forall|x: u32| s_old.contains(x) implies s_new.contains(x) by {
                let i = choose|i: int| 0 <= i < s_old.len() && s_old[i] == x;
                if i < idx {
                    assert(s_new[i] == x);
                } else {
                    assert(s_new[i + 1] == x);
                }
            }
            assert(s_new[idx as int] == id);
            assert(s_new.contains(id));
            assert(!s_old.contains(id));
        }
    }

    /// The ids in ascending order.
    pub fn to_vec(&self) -> (v: Vec<u32>)
        ensures
            v@ == self@,
            sorted_strict(v@),
    {
        proof {
            use_type_invariant(&*self);
        }
        let mut v: Vec<u32> = Vec::new();
        let mut i: usize = 0;
        while i < self.ids.len()
            invariant
                i <= self.ids@.len(),
                v@ == self.ids@.subrange(0, i as int),
            decreases self.ids@.len() - i,
        {
            let x = self.ids[i];
            v.push(x);
            proof {
                assert(v@ =~= self.ids@.subrange(0, i + 1 as int));
            }
            i = i + 1;
        }
        proof {
            assert(v@ =~= self.ids@);
        }
        v
    }
}

/// The in-memory ledger of one session's ingestion progress: the session's
/// identity and metadata, and which chunk and keyframe ids have been
/// durably stored so far. The recorder is its only mutator; the stored-id
/// sets only ever grow.
pub struct Record {
    pub version: String,
    pub endpoint: SpectatorEndpoint,
    pub game_id: String,
    pub encryption_key: String,
    pub metadata: Option<GameMetaData>,
    pub keyframes: IdSet,
    pub game_data_chunks: IdSet,
}

impl Record {
    pub fn new(
        version: String,
        endpoint: SpectatorEndpoint,
        game_id: String,
        encryption_key: String,
    ) -> (r: Record)
        ensures
            r.version == version,
            r.endpoint == endpoint,
            r.game_id == game_id,
            r.encryption_key == encryption_key,
            r.metadata is None,
            r.keyframes@ == Seq::<u32>::empty(),
            r.game_data_chunks@ == Seq::<u32>::empty(),
    {
        Record {
            version,
            endpoint,
            game_id,
            encryption_key,
            metadata: None,
            keyframes: IdSet::new(),
            game_data_chunks: IdSet::new(),
        }
    }

    pub fn has_game_data_chunk(&self, chunk_id: u32) -> (r: bool)
        ensures
            r == self.game_data_chunks@.contains(chunk_id),
    {
        self.game_data_chunks.contains(chunk_id)
    }

    /// Marks a chunk as durably stored. Called only after the sink
    /// confirmed the write.
    pub fn insert_game_data_chunk(&mut self, chunk_id: u32)
        ensures
            final(self).game_data_chunks@.contains(chunk_id),
            forall|x: u32|
                final(self).game_data_chunks@.contains(x) <==> (
                old(self).game_data_chunks@.contains(x) || x == chunk_id),
            final(self).keyframes == old(self).keyframes,
            final(self).version == old(self).version,
            final(self).endpoint == old(self).endpoint,
            final(self).game_id == old(self).game_id,
            final(self).encryption_key == old(self).encryption_key,
            final(self).metadata == old(self).metadata,
    {
        self.game_data_chunks.insert(chunk_id);
    }

    pub fn has_keyframe(&self, keyframe_id: u32) -> (r: bool)
        ensures
            r == self.keyframes@.contains(keyframe_id),
    {
        self.keyframes.contains(keyframe_id)
    }

    /// Marks a keyframe as durably stored. Called only after the sink
    /// confirmed the write.
    pub fn insert_keyframe(&mut self, keyframe_id: u32)
        ensures
            final(self).keyframes@.contains(keyframe_id),
            forall|x: u32|
                final(self).keyframes@.contains(x) <==> (
                old(self).keyframes@.contains(x) || x == keyframe_id),
            final(self).game_data_chunks == old(self).game_data_chunks,
            final(self).version == old(self).version,
            final(self).endpoint == old(self).endpoint,
            final(self).game_id == old(self).game_id,
            final(self).encryption_key == old(self).encryption_key,
            final(self).metadata == old(self).metadata,
    {
        self.keyframes.insert(keyframe_id);
    }

    /// The one-time final report of a completed session: everything the
    /// ledger holds, with the stored ids listed in ascending order.
    pub fn into_snapshot(self, storage_metadata: String) -> (s: Snapshot)
        ensures
            s.version == self.version,
            s.endpoint == self.endpoint,
            s.game_id == self.game_id,
            s.encryption_key == self.encryption_key,
            s.metadata == self.metadata,
            s.keyframes@ == self.keyframes@,
            s.game_data_chunks@ == self.game_data_chunks@,
            sorted_strict(s.keyframes@),
            sorted_strict(s.game_data_chunks@),
            s.storage == storage_metadata,
    {
        let keyframes = self.keyframes.to_vec();
        let game_data_chunks = self.game_data_chunks.to_vec();
        Snapshot {
            version: self.version,
            endpoint: self.endpoint,
            game_id: self.game_id,
            encryption_key: self.encryption_key,
            metadata: self.metadata,
            keyframes,
            game_data_chunks,
            storage: storage_metadata,
        }
    }
}

/// What is written out once when a session completes: the session's
/// identity, its metadata, the sorted lists of stored ids, and the sink's
/// description of where the payloads went.
pub struct Snapshot {
    pub version: String,
    pub endpoint: SpectatorEndpoint,
    pub game_id: String,
    pub encryption_key: String,
    pub metadata: Option<GameMetaData>,
    pub keyframes: Vec<u32>,
    pub game_data_chunks: Vec<u32>,
    pub storage: String,
}

} // verus!
