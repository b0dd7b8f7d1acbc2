use vstd::prelude::*;

use crate::api::endpoints::LastChunkInfo;

use super::models::Record;
use super::models::Snapshot;
use super::models::sorted_strict;
use super::storage::Storage;

verus! {

/// What one fetch-and-store attempt came to. Anything but `Stored` leaves
/// the ledger as it was: a failed id is eligible again on a later
/// backfill pass, and an already-stored id is not touched at all.
#[derive(Debug, Clone, Copy, PartialEq, Eq, Structural)]
pub enum ItemOutcome {
    /// The ledger already held the id: no fetch and no write was made.
    AlreadyStored,
    /// The payload was fetched and the sink confirmed the write.
    Stored,
    /// The payload could not be fetched; the id stays unmarked.
    FetchFailed,
    /// The sink refused the write; the id stays unmarked.
    StoreFailed,
}

/// The two kinds of media a session serves.
#[derive(Debug, Clone, Copy, PartialEq, Eq, Structural)]
pub enum ItemKind {
    Chunk,
    KeyFrame,
}

/// One fetch-and-store attempt, as the recorder made it.
#[derive(Debug, Clone, Copy, PartialEq, Eq, Structural)]
pub struct Attempt {
    pub kind: ItemKind,
    pub id: u32,
    pub outcome: ItemOutcome,
}

/// The payloads the remote side serves, given as plain data: a fetch
/// succeeds exactly when the id is present. The recorder is verified
/// against this view of the server; the live transport hands the same
/// values in from outside.
pub struct MediaSource {
    pub chunks: Vec<(u32, Vec<u8>)>,
    pub keyframes: Vec<(u32, Vec<u8>)>,
}

impl MediaSource {
    pub open spec fn has_chunk(&self, id: u32) -> bool {
        exists|i: int| 0 <= i < self.chunks@.len() && self.chunks@[i].0 == id
    }

    pub open spec fn has_keyframe(&self, id: u32) -> bool {
        exists|i: int| 0 <= i < self.keyframes@.len() && self.keyframes@[i].0 == id
    }

    /// The payload served for one chunk id, if any.
    pub fn chunk_payload(&self, id: u32) -> (r: Option<Vec<u8>>)
        ensures
            r is Some <==> self.has_chunk(id),
            match r {
                Some(data) => exists|i: int|
                    0 <= i < self.chunks@.len() && self.chunks@[i].0 == id
                        && self.chunks@[i].1@ == data@,
                None => true,
            },
    {
        lookup_payload(&self.chunks, id)
    }

    /// The payload served for one keyframe id, if any.
    pub fn keyframe_payload(&self, id: u32) -> (r: Option<Vec<u8>>)
        ensures
            r is Some <==> self.has_keyframe(id),
            match r {
                Some(data) => exists|i: int|
                    0 <= i < self.keyframes@.len() && self.keyframes@[i].0 == id
                        && self.keyframes@[i].1@ == data@,
                None => true,
            },
    {
        lookup_payload(&self.keyframes, id)
    }
}

fn copy_bytes(data: &Vec<u8>) -> (r: Vec<u8>)
    ensures
        r@ == data@,
{
    let mut r: Vec<u8> = Vec::new();
    let mut i: usize = 0;
    while i < data.len()
        invariant
            i <= data@.len(),
            r@ == data@.subrange(0, i as int),
        decreases data@.len() - i,
    {
        r.push(data[i]);
        proof {
            assert(r@ =~= data@.subrange(0, i + 1 as int));
        }
        i = i + 1;
    }
    proof {
        assert(r@ =~= data@);
    }
    r
}

fn lookup_payload(items: &Vec<(u32, Vec<u8>)>, id: u32) -> (r: Option<Vec<u8>>)
    ensures
        r is Some <==> exists|i: int| 0 <= i < items@.len() && items@[i].0 == id,
        match r {
            Some(data) => exists|i: int|
                0 <= i < items@.len() && items@[i].0 == id && items@[i].1@ == data@,
            None => true,
        },
{
    let mut i: usize = 0;
    while i < items.len()
        invariant
            i <= items@.len(),
            forall|j: int| 0 <= j < i ==> items@[j].0 != id,
        decreases items@.len() - i,
    {
        if items[i].0 == id {
            return Some(copy_bytes(&items[i].1));
        }
        i = i + 1;
    }
    None
}

/// The ids a gap-triggered backfill pass visits for a reported id:
/// everything below it, most recent first, down to 1.
pub open spec fn backfill_ids(reported: u32) -> Seq<u32> {
    if reported >= 1 {
        Seq::new((reported - 1) as nat, |i: int| (reported - 1 - i) as u32)
    } else {
        Seq::empty()
    }
}

/// Whether a pass stored the given id as the given kind of item.
pub open spec fn stored_in(attempts: Seq<Attempt>, kind: ItemKind, x: u32) -> bool {
    exists|i: int|
        0 <= i < attempts.len() && attempts[i].kind == kind && attempts[i].id == x
            && attempts[i].outcome == ItemOutcome::Stored
}

pub proof fn lemma_stored_in_push(a: Seq<Attempt>, t: Attempt, kind: ItemKind, x: u32)
    ensures
        stored_in(a.push(t), kind, x) <==> (stored_in(a, kind, x) || (t.kind == kind && t.id
            == x && t.outcome == ItemOutcome::Stored)),
{
    let ab = a.push(t);
    if stored_in(ab, kind, x) {
        let i = choose|i: int|
            0 <= i < ab.len() && ab[i].kind == kind && ab[i].id == x && ab[i].outcome
                == ItemOutcome::Stored;
        if i < a.len() {
            assert(a[i] == ab[i]);
        } else {
            assert(ab[i] == t);
        }
    }
    if stored_in(a, kind, x) {
        let i = choose|i: int|
            0 <= i < a.len() && a[i].kind == kind && a[i].id == x && a[i].outcome
                == ItemOutcome::Stored;
        assert(ab[i] == a[i]);
    }
    if t.kind == kind && t.id == x && t.outcome == ItemOutcome::Stored {
        assert(ab[a.len() as int] == t);
    }
}

pub proof fn lemma_stored_in_concat(a: Seq<Attempt>, b: Seq<Attempt>, kind: ItemKind, x: u32)
    ensures
        stored_in(a + b, kind, x) <==> (stored_in(a, kind, x) || stored_in(b, kind, x)),
{
    let ab = a + b;
    if stored_in(ab, kind, x) {
        let i = choose|i: int|
            0 <= i < ab.len() && ab[i].kind == kind && ab[i].id == x && ab[i].outcome
                == ItemOutcome::Stored;
        if i < a.len() {
            assert(a[i] == ab[i]);
        } else {
            assert(b[i - a.len()] == ab[i]);
        }
    }
    if stored_in(a, kind, x) {
        let i = choose|i: int|
            0 <= i < a.len() && a[i].kind == kind && a[i].id == x && a[i].outcome
                == ItemOutcome::Stored;
        assert(ab[i] == a[i]);
    }
    if stored_in(b, kind, x) {
        let i = choose|i: int|
            0 <= i < b.len() && b[i].kind == kind && b[i].id == x && b[i].outcome
                == ItemOutcome::Stored;
        assert(ab[a.len() + i] == b[i]);
    }
}

/// Builds the descending id list of one backfill pass.
pub fn backfill_id_list(reported: u32) -> (v: Vec<u32>)
    ensures
        v@ == backfill_ids(reported),
{
    let mut v: Vec<u32> = Vec::new();
    if reported >= 1 {
        let n: u32 = reported - 1;
        let mut k: usize = 0;
        while k < n as usize
            invariant
                n == reported - 1,
                k <= n as usize,
                v@.len() == k,
                forall|j: int| 0 <= j < k ==> v@[j] == (reported - 1 - j) as u32,
            decreases n as usize - k,
        {
            v.push(n - (k as u32));
            k = k + 1;
        }
    }
    proof {
        assert(v@ =~= backfill_ids(reported));
    }
    v
}

/// Fetches one chunk and hands it to the sink, unless the ledger already
/// holds the id: then nothing is fetched and nothing is written. The id
/// is marked stored exactly when the sink confirmed the write.
pub fn fetch_and_store_game_data_chunk<S: Storage>(
    record: &mut Record,
    chunk_id: u32,
    source: &MediaSource,
    storage: &S,
) -> (r: ItemOutcome)
    ensures
        r == ItemOutcome::AlreadyStored <==> old(record).game_data_chunks@.contains(chunk_id),
        r == ItemOutcome::FetchFailed ==> !source.has_chunk(chunk_id),
        (!old(record).game_data_chunks@.contains(chunk_id) && !source.has_chunk(chunk_id))
            ==> r == ItemOutcome::FetchFailed,
        (r == ItemOutcome::Stored || r == ItemOutcome::StoreFailed) ==> source.has_chunk(
            chunk_id,
        ),
        forall|x: u32|
            final(record).game_data_chunks@.contains(x) <==> (
            old(record).game_data_chunks@.contains(x) || (x == chunk_id && r
                == ItemOutcome::Stored)),
        final(record).keyframes == old(record).keyframes,
        final(record).version == old(record).version,
        final(record).endpoint == old(record).endpoint,
        final(record).game_id == old(record).game_id,
        final(record).encryption_key == old(record).encryption_key,
        final(record).metadata == old(record).metadata,
{
    if record.has_game_data_chunk(chunk_id) {
        return ItemOutcome::AlreadyStored;
    }
    match source.chunk_payload(chunk_id) {
        Some(data) => {
            match storage.store_game_data_chunk(chunk_id, data) {
                Ok(_) => {
                    record.insert_game_data_chunk(chunk_id);
                    ItemOutcome::Stored
                },
                Err(_) => ItemOutcome::StoreFailed,
            }
        },
        None => ItemOutcome::FetchFailed,
    }
}

/// Fetches one keyframe and hands it to the sink, under the same policy
/// as chunks: skip what the ledger holds, mark stored only on a
/// confirmed write.
pub fn fetch_and_store_keyframe<S: Storage>(
    record: &mut Record,
    keyframe_id: u32,
    source: &MediaSource,
    storage: &S,
) -> (r: ItemOutcome)
    ensures
        r == ItemOutcome::AlreadyStored <==> old(record).keyframes@.contains(keyframe_id),
        r == ItemOutcome::FetchFailed ==> !source.has_keyframe(keyframe_id),
        (!old(record).keyframes@.contains(keyframe_id) && !source.has_keyframe(keyframe_id))
            ==> r == ItemOutcome::FetchFailed,
        (r == ItemOutcome::Stored || r == ItemOutcome::StoreFailed) ==> source.has_keyframe(
            keyframe_id,
        ),
        forall|x: u32|
            final(record).keyframes@.contains(x) <==> (old(record).keyframes@.contains(x) || (
            x == keyframe_id && r == ItemOutcome::Stored)),
        final(record).game_data_chunks == old(record).game_data_chunks,
        final(record).version == old(record).version,
        final(record).endpoint == old(record).endpoint,
        final(record).game_id == old(record).game_id,
        final(record).encryption_key == old(record).encryption_key,
        final(record).metadata == old(record).metadata,
{
    if record.has_keyframe(keyframe_id) {
        return ItemOutcome::AlreadyStored;
    }
    match source.keyframe_payload(keyframe_id) {
        Some(data) => {
            match storage.store_key_frame(keyframe_id, data) {
                Ok(_) => {
                    record.insert_keyframe(keyframe_id);
                    ItemOutcome::Stored
                },
                Err(_) => ItemOutcome::StoreFailed,
            }
        },
        None => ItemOutcome::FetchFailed,
    }
}

/// A gap was reported: recover everything below the reported chunk and
/// keyframe ids, most recent first, skipping what the ledger already
/// holds. A failed id is left unmarked for a later pass; the pass never
/// stops early.
pub fn process_previous_media_data<S: Storage>(
    record: &mut Record,
    current_chunk_id: u32,
    current_key_frame_id: u32,
    source: &MediaSource,
    storage: &S,
) -> (attempts: Vec<Attempt>)
    ensures
        attempts@.len() == backfill_ids(current_chunk_id).len() + backfill_ids(
            current_key_frame_id,
        ).len(),
        forall|i: int|
            #![trigger attempts@[i]]
            0 <= i < backfill_ids(current_chunk_id).len() ==> {
                &&& attempts@[i].kind == ItemKind::Chunk
                &&& attempts@[i].id == backfill_ids(current_chunk_id)[i]
                &&& (attempts@[i].outcome == ItemOutcome::AlreadyStored <==> old(
                    record,
                ).game_data_chunks@.contains(attempts@[i].id))
                &&& (attempts@[i].outcome == ItemOutcome::Stored ==> source.has_chunk(
                    attempts@[i].id,
                ))
            },
        forall|i: int|
            #![trigger attempts@[i]]
            backfill_ids(current_chunk_id).len() <= i < attempts@.len() ==> {
                &&& attempts@[i].kind == ItemKind::KeyFrame
                &&& attempts@[i].id == backfill_ids(current_key_frame_id)[i - backfill_ids(
                    current_chunk_id,
                ).len()]
                &&& (attempts@[i].outcome == ItemOutcome::AlreadyStored <==> old(
                    record,
                ).keyframes@.contains(attempts@[i].id))
                &&& (attempts@[i].outcome == ItemOutcome::Stored ==> source.has_keyframe(
                    attempts@[i].id,
                ))
            },
        forall|x: u32|
            #![trigger final(record).game_data_chunks@.contains(x)]
            final(record).game_data_chunks@.contains(x) <==> (
            old(record).game_data_chunks@.contains(x) || stored_in(
                attempts@,
                ItemKind::Chunk,
                x,
            )),
        forall|x: u32|
            #![trigger final(record).keyframes@.contains(x)]
            final(record).keyframes@.contains(x) <==> (old(record).keyframes@.contains(x)
                || stored_in(attempts@, ItemKind::KeyFrame, x)),
        final(record).version == old(record).version,
        final(record).endpoint == old(record).endpoint,
        final(record).game_id == old(record).game_id,
        final(record).encryption_key == old(record).encryption_key,
        final(record).metadata == old(record).metadata,
{
    let chunk_ids = backfill_id_list(current_chunk_id);
    let keyframe_ids = backfill_id_list(current_key_frame_id);
    let ghost cs = backfill_ids(current_chunk_id);
    let ghost ks = backfill_ids(current_key_frame_id);
    let ghost init = *record;
    let ghost init_chunks = record.game_data_chunks@;
    let ghost init_kf = record.keyframes@;

    let mut attempts: Vec<Attempt> = Vec::new();
    let mut k: usize = 0;
    while k < chunk_ids.len()
        invariant
            chunk_ids@ == cs,
            cs == backfill_ids(current_chunk_id),
            k <= cs.len(),
            attempts@.len() == k,
            forall|i: int|
                #![trigger attempts@[i]]
                0 <= i < k ==> {
                    &&& attempts@[i].kind == ItemKind::Chunk
                    &&& attempts@[i].id == cs[i]
                    &&& (attempts@[i].outcome == ItemOutcome::AlreadyStored
                        <==> init_chunks.contains(attempts@[i].id))
                    &&& (attempts@[i].outcome == ItemOutcome::Stored ==> source.has_chunk(
                        attempts@[i].id,
                    ))
                },
            forall|x: u32|
                record.game_data_chunks@.contains(x) <==> (
                init_chunks.contains(x) || stored_in(
                    attempts@,
                    ItemKind::Chunk,
                    x,
                )),
            record.keyframes == init.keyframes,
            record.version == init.version,
            record.endpoint == init.endpoint,
            record.game_id == init.game_id,
            record.encryption_key == init.encryption_key,
            record.metadata == init.metadata,
        decreases cs.len() - k,
    {
        let id = chunk_ids[k];
        proof {
            if stored_in(attempts@, ItemKind::Chunk, id) {
                let i = choose|i: int|
                    0 <= i < attempts@.len() && attempts@[i].kind == ItemKind::Chunk
                        && attempts@[i].id == id && attempts@[i].outcome
                        == ItemOutcome::Stored;
                assert(attempts@[i].id == cs[i]);
                assert(cs[i] == (current_chunk_id - 1 - i) as u32);
                assert(cs[k as int] == (current_chunk_id - 1 - k) as u32);
                assert(false);
            }
            assert(record.game_data_chunks@.contains(id)
                <==> init_chunks.contains(id));
        }
        let ghost pre = attempts@;
        let ghost led_pre = record.game_data_chunks@;
        let outcome = fetch_and_store_game_data_chunk(record, id, source, storage);
        let attempt = Attempt { kind: ItemKind::Chunk, id, outcome };
        attempts.push(attempt);
        proof {
            let post = attempts@;
            assert(post == pre.push(attempt));
            assert(post.len() == k + 1);
            assert(post[k as int] == attempt);
            assert forall|i: int|
                #![trigger post[i]]
                0 <= i < k + 1 implies {
                    &&& post[i].kind == ItemKind::Chunk
                    &&& post[i].id == cs[i]
                    &&& (post[i].outcome == ItemOutcome::AlreadyStored
                        <==> init_chunks.contains(post[i].id))
                    &&& (post[i].outcome == ItemOutcome::Stored ==> source.has_chunk(
                        post[i].id,
                    ))
                } by {
                if i < k {
                    assert(post[i] == pre[i]);
                    assert(pre[i].id == cs[i]);
                    assert(pre[i].kind == ItemKind::Chunk);
                } else {
                    assert(post[i] == attempt);
                }
            }
            assert forall|x: u32|
                record.game_data_chunks@.contains(x) <==> (
                init_chunks.contains(x) || stored_in(
                    post,
                    ItemKind::Chunk,
                    x,
                )) by {
                assert(led_pre.contains(x) <==> (init_chunks.contains(x)
                    || stored_in(pre, ItemKind::Chunk, x)));
                assert(record.game_data_chunks@.contains(x) <==> (led_pre.contains(x) || (x
                    == id && outcome == ItemOutcome::Stored)));
                lemma_stored_in_push(pre, attempt, ItemKind::Chunk, x);
            }
        }
        k = k + 1;
    }

    let ghost chunk_attempts = attempts@;
    let mut kf_attempts: Vec<Attempt> = Vec::new();
    let mut k2: usize = 0;
    while k2 < keyframe_ids.len()
        invariant
            keyframe_ids@ == ks,
            ks == backfill_ids(current_key_frame_id),
            cs == backfill_ids(current_chunk_id),
            k2 <= ks.len(),
            kf_attempts@.len() == k2,
            forall|i: int|
                #![trigger kf_attempts@[i]]
                0 <= i < k2 ==> {
                    &&& kf_attempts@[i].kind == ItemKind::KeyFrame
                    &&& kf_attempts@[i].id == ks[i]
                    &&& (kf_attempts@[i].outcome == ItemOutcome::AlreadyStored
                        <==> init_kf.contains(kf_attempts@[i].id))
                    &&& (kf_attempts@[i].outcome == ItemOutcome::Stored
                        ==> source.has_keyframe(kf_attempts@[i].id))
                },
            forall|x: u32|
                record.keyframes@.contains(x) <==> (init_kf.contains(x)
                    || stored_in(kf_attempts@, ItemKind::KeyFrame, x)),
            attempts@ == chunk_attempts,
            attempts@.len() == cs.len(),
            forall|x: u32|
                record.game_data_chunks@.contains(x) <==> (
                init_chunks.contains(x) || stored_in(
                    chunk_attempts,
                    ItemKind::Chunk,
                    x,
                )),
            record.version == init.version,
            record.endpoint == init.endpoint,
            record.game_id == init.game_id,
            record.encryption_key == init.encryption_key,
            record.metadata == init.metadata,
        decreases ks.len() - k2,
    {
        let id = keyframe_ids[k2];
        proof {
            if stored_in(kf_attempts@, ItemKind::KeyFrame, id) {
                let i = choose|i: int|
                    0 <= i < kf_attempts@.len() && kf_attempts@[i].kind == ItemKind::KeyFrame
                        && kf_attempts@[i].id == id && kf_attempts@[i].outcome
                        == ItemOutcome::Stored;
                assert(kf_attempts@[i].id == ks[i]);
                assert(ks[i] == (current_key_frame_id - 1 - i) as u32);
                assert(ks[k2 as int] == (current_key_frame_id - 1 - k2) as u32);
                assert(false);
            }
            assert(record.keyframes@.contains(id) <==> init_kf.contains(id));
        }
        let ghost pre = kf_attempts@;
        let ghost led_pre = record.keyframes@;
        let ghost chunks_pre = record.game_data_chunks@;
        let outcome = fetch_and_store_keyframe(record, id, source, storage);
        let attempt = Attempt { kind: ItemKind::KeyFrame, id, outcome };
        kf_attempts.push(attempt);
        proof {
            let post = kf_attempts@;
            assert(post == pre.push(attempt));
            assert(post.len() == k2 + 1);
            assert(post[k2 as int] == attempt);
            assert forall|i: int|
                #![trigger post[i]]
                0 <= i < k2 + 1 implies {
                    &&& post[i].kind == ItemKind::KeyFrame
                    &&& post[i].id == ks[i]
                    &&& (post[i].outcome == ItemOutcome::AlreadyStored
                        <==> init_kf.contains(post[i].id))
                    &&& (post[i].outcome == ItemOutcome::Stored ==> source.has_keyframe(
                        post[i].id,
                    ))
                } by {
                if i < k2 {
                    assert(post[i] == pre[i]);
                    assert(pre[i].id == ks[i]);
                    assert(pre[i].kind == ItemKind::KeyFrame);
                } else {
                    assert(post[i] == attempt);
                }
            }
            assert forall|x: u32|
                record.keyframes@.contains(x) <==> (init_kf.contains(x)
                    || stored_in(post, ItemKind::KeyFrame, x)) by {
                assert(led_pre.contains(x) <==> (init_kf.contains(x) || stored_in(
                    pre,
                    ItemKind::KeyFrame,
                    x,
                )));
                assert(record.keyframes@.contains(x) <==> (led_pre.contains(x) || (x == id
                    && outcome == ItemOutcome::Stored)));
                lemma_stored_in_push(pre, attempt, ItemKind::KeyFrame, x);
            }
            assert(record.game_data_chunks@ == chunks_pre);
            assert forall|x: u32|
                record.game_data_chunks@.contains(x) <==> (
                init_chunks.contains(x) || stored_in(
                    chunk_attempts,
                    ItemKind::Chunk,
                    x,
                )) by {
                assert(chunks_pre.contains(x) <==> (init_chunks.contains(x)
                    || stored_in(chunk_attempts, ItemKind::Chunk, x)));
            }
        }
        k2 = k2 + 1;
    }

    let ghost kf_part = kf_attempts@;
    attempts.append(&mut kf_attempts);
    proof {
        assert(attempts@ == chunk_attempts + kf_part);
        assert forall|i: int|
            #![trigger attempts@[i]]
            0 <= i < attempts@.len() implies {
                if i < cs.len() {
                    attempts@[i] == chunk_attempts[i]
                } else {
                    attempts@[i] == kf_part[i - cs.len()]
                }
            } by {
            if i < cs.len() {
                assert((chunk_attempts + kf_part)[i] == chunk_attempts[i]);
            } else {
                assert((chunk_attempts + kf_part)[i] == kf_part[i - chunk_attempts.len()]);
            }
        }
        assert forall|x: u32|
            final(record).game_data_chunks@.contains(x) <==> (
            old(record).game_data_chunks@.contains(x) || stored_in(
                attempts@,
                ItemKind::Chunk,
                x,
            )) by {
            lemma_stored_in_concat(chunk_attempts, kf_part, ItemKind::Chunk, x);
            if stored_in(kf_part, ItemKind::Chunk, x) {
                let i = choose|i: int|
                    0 <= i < kf_part.len() && kf_part[i].kind == ItemKind::Chunk
                        && kf_part[i].id == x && kf_part[i].outcome == ItemOutcome::Stored;
            }
            assert(record.game_data_chunks@.contains(x) <==> (
            init_chunks.contains(x) || stored_in(
                chunk_attempts,
                ItemKind::Chunk,
                x,
            )));
        }
        assert forall|x: u32|
            final(record).keyframes@.contains(x) <==> (old(record).keyframes@.contains(x)
                || stored_in(attempts@, ItemKind::KeyFrame, x)) by {
            lemma_stored_in_concat(chunk_attempts, kf_part, ItemKind::KeyFrame, x);
            if stored_in(chunk_attempts, ItemKind::KeyFrame, x) {
                let i = choose|i: int|
                    0 <= i < chunk_attempts.len() && chunk_attempts[i].kind
                        == ItemKind::KeyFrame && chunk_attempts[i].id == x
                        && chunk_attempts[i].outcome == ItemOutcome::Stored;
            }
            assert(record.keyframes@.contains(x) <==> (init_kf.contains(x)
                || stored_in(kf_part, ItemKind::KeyFrame, x)));
        }
    }
    attempts
}

/// Processes the chunk and keyframe the server just reported as newest:
/// one fetch-and-store attempt each, skipping what the ledger holds.
pub fn process_media_data<S: Storage>(
    record: &mut Record,
    chunk_id: u32,
    keyframe_id: u32,
    source: &MediaSource,
    storage: &S,
) -> (attempts: Vec<Attempt>)
    ensures
        attempts@.len() == 2,
        attempts@[0].kind == ItemKind::Chunk,
        attempts@[0].id == chunk_id,
        attempts@[0].outcome == ItemOutcome::AlreadyStored <==> old(
            record,
        ).game_data_chunks@.contains(chunk_id),
        attempts@[0].outcome == ItemOutcome::Stored ==> source.has_chunk(chunk_id),
        attempts@[1].kind == ItemKind::KeyFrame,
        attempts@[1].id == keyframe_id,
        attempts@[1].outcome == ItemOutcome::AlreadyStored <==> old(
            record,
        ).keyframes@.contains(keyframe_id),
        attempts@[1].outcome == ItemOutcome::Stored ==> source.has_keyframe(keyframe_id),
        forall|x: u32|
            #![trigger final(record).game_data_chunks@.contains(x)]
            final(record).game_data_chunks@.contains(x) <==> (
            old(record).game_data_chunks@.contains(x) || stored_in(
                attempts@,
                ItemKind::Chunk,
                x,
            )),
        forall|x: u32|
            #![trigger final(record).keyframes@.contains(x)]
            final(record).keyframes@.contains(x) <==> (old(record).keyframes@.contains(x)
                || stored_in(attempts@, ItemKind::KeyFrame, x)),
        final(record).version == old(record).version,
        final(record).endpoint == old(record).endpoint,
        final(record).game_id == old(record).game_id,
        final(record).encryption_key == old(record).encryption_key,
        final(record).metadata == old(record).metadata,
{
    let chunk_outcome = fetch_and_store_game_data_chunk(record, chunk_id, source, storage);
    let keyframe_outcome = fetch_and_store_keyframe(record, keyframe_id, source, storage);
    let mut attempts: Vec<Attempt> = Vec::new();
    attempts.push(Attempt { kind: ItemKind::Chunk, id: chunk_id, outcome: chunk_outcome });
    attempts.push(
        Attempt { kind: ItemKind::KeyFrame, id: keyframe_id, outcome: keyframe_outcome },
    );
    proof {
        assert forall|x: u32|
            stored_in(attempts@, ItemKind::Chunk, x) <==> (x == chunk_id && chunk_outcome
                == ItemOutcome::Stored) by {
            if stored_in(attempts@, ItemKind::Chunk, x) {
                let i = choose|i: int|
                    0 <= i < attempts@.len() && attempts@[i].kind == ItemKind::Chunk
                        && attempts@[i].id == x && attempts@[i].outcome
                        == ItemOutcome::Stored;
                assert(i == 0);
            }
            if x == chunk_id && chunk_outcome == ItemOutcome::Stored {
                assert(attempts@[0].kind == ItemKind::Chunk && attempts@[0].id == x
                    && attempts@[0].outcome == ItemOutcome::Stored);
            }
        }
        assert forall|x: u32|
            stored_in(attempts@, ItemKind::KeyFrame, x) <==> (x == keyframe_id
                && keyframe_outcome == ItemOutcome::Stored) by {
            if stored_in(attempts@, ItemKind::KeyFrame, x) {
                let i = choose|i: int|
                    0 <= i < attempts@.len() && attempts@[i].kind == ItemKind::KeyFrame
                        && attempts@[i].id == x && attempts@[i].outcome
                        == ItemOutcome::Stored;
                assert(i == 1);
            }
            if x == keyframe_id && keyframe_outcome == ItemOutcome::Stored {
                assert(attempts@[1].kind == ItemKind::KeyFrame && attempts@[1].id == x
                    && attempts@[1].outcome == ItemOutcome::Stored);
            }
        }
    }
    attempts
}


/// One poll of the latest chunk info, as the server answered it.
#[derive(Debug, Clone, Copy, PartialEq, Eq, Structural)]
pub enum PollOutcome {
    Info(LastChunkInfo),
    Failed,
}

/// A poll that closes the session: the reported chunk is the declared
/// final one.
pub open spec fn is_terminal_poll(p: PollOutcome) -> bool {
    match p {
        PollOutcome::Info(info) => info.chunk_id == info.end_game_chunk_id,
        PollOutcome::Failed => false,
    }
}

/// Whether some poll in the sequence closes the session.
pub open spec fn reaches_terminal(polls: Seq<PollOutcome>) -> bool {
    exists|i: int| 0 <= i < polls.len() && is_terminal_poll(polls[i])
}

/// The kind and id of each attempt, stripped of its outcome.
pub open spec fn attempt_seq(attempts: Seq<Attempt>) -> Seq<(ItemKind, u32)> {
    attempts.map_values(|t: Attempt| (t.kind, t.id))
}

/// The attempts one chunk-info report provokes: a backfill pass when the
/// report differs from the expected next ids, then the reported chunk
/// and keyframe themselves.
pub open spec fn plan_for_info(
    expected_chunk_id: u64,
    expected_keyframe_id: u64,
    info: LastChunkInfo,
) -> Seq<(ItemKind, u32)> {
    let current = seq![
        (ItemKind::Chunk, info.chunk_id),
        (ItemKind::KeyFrame, info.key_frame_id),
    ];
    if spec_gap_detected(expected_chunk_id, expected_keyframe_id, info) {
        backfill_ids(info.chunk_id).map_values(|id: u32| (ItemKind::Chunk, id))
            + backfill_ids(info.key_frame_id).map_values(|id: u32| (ItemKind::KeyFrame, id))
            + current
    } else {
        current
    }
}

/// Every attempt a whole run makes, in order, as a function of the poll
/// answers alone: failed polls provoke nothing, each report provokes its
/// plan, the expected ids advance past the report, and the run stops at
/// the first terminal report.
pub open spec fn attempt_plan(
    polls: Seq<PollOutcome>,
    expected_chunk_id: u64,
    expected_keyframe_id: u64,
) -> Seq<(ItemKind, u32)>
    decreases polls.len(),
{
    if polls.len() == 0 {
        Seq::empty()
    } else {
        match polls[0] {
            PollOutcome::Failed => attempt_plan(
                polls.skip(1),
                expected_chunk_id,
                expected_keyframe_id,
            ),
            PollOutcome::Info(info) => {
                let here = plan_for_info(expected_chunk_id, expected_keyframe_id, info);
                if info.chunk_id == info.end_game_chunk_id {
                    here
                } else {
                    here + attempt_plan(
                        polls.skip(1),
                        (info.chunk_id + 1) as u64,
                        (info.key_frame_id + 1) as u64,
                    )
                }
            },
        }
    }
}

/// Fixed wait before retrying a failed poll, in milliseconds.
pub const POLL_RETRY_WAIT_MS: u64 = 10000;

pub open spec fn spec_gap_detected(
    expected_chunk_id: u64,
    expected_keyframe_id: u64,
    info: LastChunkInfo,
) -> bool {
    info.chunk_id as u64 != expected_chunk_id || info.key_frame_id as u64
        != expected_keyframe_id
}

/// Whether the server's report differs from the expected next chunk or
/// keyframe id: if so, something in between was missed and a backfill
/// pass is due.
pub fn gap_detected(
    expected_chunk_id: u64,
    expected_keyframe_id: u64,
    info: &LastChunkInfo,
) -> (r: bool)
    ensures
        r == spec_gap_detected(expected_chunk_id, expected_keyframe_id, *info),
{
    info.chunk_id as u64 != expected_chunk_id || info.key_frame_id as u64
        != expected_keyframe_id
}

/// Whether this report closes the session.
pub fn session_complete(info: &LastChunkInfo) -> (r: bool)
    ensures
        r == (info.chunk_id == info.end_game_chunk_id),
{
    info.chunk_id == info.end_game_chunk_id
}

/// How long to pace before the next poll, in milliseconds: what the
/// server announced, padded by a second against clock skew.
pub fn pacing_wait_ms(info: &LastChunkInfo) -> (r: u64)
    ensures
        r == info.next_available_chunk as u64 + 1000,
{
    info.next_available_chunk as u64 + 1000
}

/// How one full run ended: with the one finalization snapshot, or with
/// the ledger as it stood when the given poll answers ran out short of a
/// terminal report.
pub enum RunOutcome {
    Finished(Snapshot),
    Unfinished(Record),
}

/// What a run did: how it ended, and every fetch-and-store attempt it
/// made, in order.
pub struct RunReport {
    pub outcome: RunOutcome,
    pub attempts: Vec<Attempt>,
}

impl RunReport {
    /// The chunk ids held stored when the run ended.
    pub open spec fn chunk_ledger(&self) -> Seq<u32> {
        match self.outcome {
            RunOutcome::Finished(s) => s.game_data_chunks@,
            RunOutcome::Unfinished(r) => r.game_data_chunks@,
        }
    }

    /// The keyframe ids held stored when the run ended.
    pub open spec fn keyframe_ledger(&self) -> Seq<u32> {
        match self.outcome {
            RunOutcome::Finished(s) => s.keyframes@,
            RunOutcome::Unfinished(r) => r.keyframes@,
        }
    }
}


pub proof fn lemma_attempt_seq_concat(a: Seq<Attempt>, b: Seq<Attempt>)
    ensures
        attempt_seq(a + b) == attempt_seq(a) + attempt_seq(b),
{
    let lhs = attempt_seq(a + b);
    let rhs = attempt_seq(a) + attempt_seq(b);
    assert forall|i: int| 0 <= i < lhs.len() implies lhs[i] == rhs[i] by {
        if i < a.len() {
            assert((a + b)[i] == a[i]);
        } else {
            assert((a + b)[i] == b[i - a.len()]);
        }
    }
    assert(lhs =~= rhs);
}


/// Handles one chunk-info report in full: a backfill pass when the
/// report differs from the expected next ids, then one attempt each for
/// the reported chunk and keyframe. The attempts made are exactly the
/// report's plan, in order.
pub fn handle_chunk_info<S: Storage>(
    record: &mut Record,
    expected_chunk_id: u64,
    expected_keyframe_id: u64,
    info: &LastChunkInfo,
    source: &MediaSource,
    storage: &S,
) -> (attempts: Vec<Attempt>)
    ensures
        attempt_seq(attempts@) == plan_for_info(expected_chunk_id, expected_keyframe_id, *info),
        forall|x: u32|
            #![trigger final(record).game_data_chunks@.contains(x)]
            final(record).game_data_chunks@.contains(x) <==> (
            old(record).game_data_chunks@.contains(x) || stored_in(
                attempts@,
                ItemKind::Chunk,
                x,
            )),
        forall|x: u32|
            #![trigger final(record).keyframes@.contains(x)]
            final(record).keyframes@.contains(x) <==> (old(record).keyframes@.contains(x)
                || stored_in(attempts@, ItemKind::KeyFrame, x)),
        forall|j: int|
            #![trigger attempts@[j]]
            0 <= j < attempts@.len() ==> {
                &&& (attempts@[j].outcome == ItemOutcome::Stored && attempts@[j].kind
                    == ItemKind::Chunk ==> source.has_chunk(attempts@[j].id))
                &&& (attempts@[j].outcome == ItemOutcome::Stored && attempts@[j].kind
                    == ItemKind::KeyFrame ==> source.has_keyframe(attempts@[j].id))
            },
        final(record).version == old(record).version,
        final(record).endpoint == old(record).endpoint,
        final(record).game_id == old(record).game_id,
        final(record).encryption_key == old(record).encryption_key,
        final(record).metadata == old(record).metadata,
{
    let ghost plan = plan_for_info(expected_chunk_id, expected_keyframe_id, *info);
    let ghost entry_c = old(record).game_data_chunks@;
    let ghost entry_k = old(record).keyframes@;
    let ghost cs = backfill_ids(info.chunk_id).map_values(|id: u32| (ItemKind::Chunk, id));
    let ghost ks = backfill_ids(info.key_frame_id).map_values(
        |id: u32| (ItemKind::KeyFrame, id),
    );
    if gap_detected(expected_chunk_id, expected_keyframe_id, info) {
        let mut attempts = process_previous_media_data(
            record,
            info.chunk_id,
            info.key_frame_id,
            source,
            storage,
        );
        let ghost add1 = attempts@;
        let ghost mid_c = record.game_data_chunks@;
        let ghost mid_k = record.keyframes@;
        let mut current = process_media_data(
            record,
            info.chunk_id,
            info.key_frame_id,
            source,
            storage,
        );
        let ghost add2 = current@;
        attempts.append(&mut current);
        proof {
            assert(attempts@ == add1 + add2);
            assert forall|j: int| 0 <= j < add1.len() implies attempt_seq(add1)[j] == (cs
                + ks)[j] by {
                if j < backfill_ids(info.chunk_id).len() {
                    assert(add1[j].kind == ItemKind::Chunk);
                } else {
                    assert(add1[j].kind == ItemKind::KeyFrame);
                }
            }
            assert(attempt_seq(add1) =~= cs + ks);
            assert(attempt_seq(add2) =~= seq![
                (ItemKind::Chunk, info.chunk_id),
                (ItemKind::KeyFrame, info.key_frame_id),
            ]);
            lemma_attempt_seq_concat(add1, add2);
            assert(attempt_seq(attempts@) =~= plan);
            assert forall|x: u32|
                record.game_data_chunks@.contains(x) <==> (
                old(record).game_data_chunks@.contains(x) || stored_in(
                    attempts@,
                    ItemKind::Chunk,
                    x,
                )) by {
                assert(mid_c.contains(x) <==> (entry_c.contains(x) || stored_in(
                    add1,
                    ItemKind::Chunk,
                    x,
                )));
                assert(record.game_data_chunks@.contains(x) <==> (mid_c.contains(x)
                    || stored_in(add2, ItemKind::Chunk, x)));
                lemma_stored_in_concat(add1, add2, ItemKind::Chunk, x);
            }
            assert forall|x: u32|
                record.keyframes@.contains(x) <==> (old(record).keyframes@.contains(x)
                    || stored_in(attempts@, ItemKind::KeyFrame, x)) by {
                assert(mid_k.contains(x) <==> (entry_k.contains(x) || stored_in(
                    add1,
                    ItemKind::KeyFrame,
                    x,
                )));
                assert(record.keyframes@.contains(x) <==> (mid_k.contains(x) || stored_in(
                    add2,
                    ItemKind::KeyFrame,
                    x,
                )));
                lemma_stored_in_concat(add1, add2, ItemKind::KeyFrame, x);
            }
            assert forall|j: int|
                #![trigger attempts@[j]]
                0 <= j < attempts@.len() implies {
                    &&& (attempts@[j].outcome == ItemOutcome::Stored && attempts@[j].kind
                        == ItemKind::Chunk ==> source.has_chunk(attempts@[j].id))
                    &&& (attempts@[j].outcome == ItemOutcome::Stored && attempts@[j].kind
                        == ItemKind::KeyFrame ==> source.has_keyframe(attempts@[j].id))
                } by {
                if j < add1.len() {
                    assert(attempts@[j] == add1[j]);
                    if j < backfill_ids(info.chunk_id).len() {
                        assert(add1[j].kind == ItemKind::Chunk);
                    } else {
                        assert(add1[j].kind == ItemKind::KeyFrame);
                    }
                } else {
                    assert(attempts@[j] == add2[j - add1.len()]);
                }
            }
        }
        attempts
    } else {
        let attempts = process_media_data(
            record,
            info.chunk_id,
            info.key_frame_id,
            source,
            storage,
        );
        proof {
            assert(attempt_seq(attempts@) =~= plan);
            assert forall|x: u32|
                record.game_data_chunks@.contains(x) <==> (entry_c.contains(x) || stored_in(
                    attempts@,
                    ItemKind::Chunk,
                    x,
                )) by {
                assert(record.game_data_chunks@.contains(x) <==> (entry_c.contains(x)
                    || stored_in(attempts@, ItemKind::Chunk, x)));
            }
            assert forall|x: u32|
                record.keyframes@.contains(x) <==> (entry_k.contains(x) || stored_in(
                    attempts@,
                    ItemKind::KeyFrame,
                    x,
                )) by {
                assert(record.keyframes@.contains(x) <==> (entry_k.contains(x) || stored_in(
                    attempts@,
                    ItemKind::KeyFrame,
                    x,
                )));
            }
            assert forall|j: int|
                #![trigger attempts@[j]]
                0 <= j < attempts@.len() implies {
                    &&& (attempts@[j].outcome == ItemOutcome::Stored && attempts@[j].kind
                        == ItemKind::Chunk ==> source.has_chunk(attempts@[j].id))
                    &&& (attempts@[j].outcome == ItemOutcome::Stored && attempts@[j].kind
                        == ItemKind::KeyFrame ==> source.has_keyframe(attempts@[j].id))
                } by {
                assert(j == 0 || j == 1);
            }
        }
        attempts
    }
}

/// Runs one session's polling loop against a given sequence of poll
/// answers: each report is compared with the expected next ids, a gap
/// provokes a backfill pass, the reported chunk and keyframe are
/// processed, and the run ends at the first report whose chunk is the
/// declared final one. A failed poll provokes nothing and the loop goes
/// on; the expected ids advance past each report whether or not its
/// items could be stored. The live loop in the surrounding program makes
/// exactly these decisions against the real transport, with the waits
/// this function's helpers prescribe.
pub fn record_media_data<S: Storage>(
    record: Record,
    polls: &Vec<PollOutcome>,
    source: &MediaSource,
    storage: &S,
) -> (r: RunReport)
    ensures
        (r.outcome is Finished) <==> reaches_terminal(polls@),
        attempt_seq(r.attempts@) == attempt_plan(polls@, 1, 1),
        forall|x: u32|
            #![trigger r.chunk_ledger().contains(x)]
            r.chunk_ledger().contains(x) <==> (record.game_data_chunks@.contains(x)
                || stored_in(r.attempts@, ItemKind::Chunk, x)),
        forall|x: u32|
            #![trigger r.keyframe_ledger().contains(x)]
            r.keyframe_ledger().contains(x) <==> (record.keyframes@.contains(x) || stored_in(
                r.attempts@,
                ItemKind::KeyFrame,
                x,
            )),
        forall|i: int|
            #![trigger r.attempts@[i]]
            0 <= i < r.attempts@.len() ==> {
                &&& (r.attempts@[i].outcome == ItemOutcome::Stored && r.attempts@[i].kind
                    == ItemKind::Chunk ==> source.has_chunk(r.attempts@[i].id))
                &&& (r.attempts@[i].outcome == ItemOutcome::Stored && r.attempts@[i].kind
                    == ItemKind::KeyFrame ==> source.has_keyframe(r.attempts@[i].id))
            },
        match r.outcome {
            RunOutcome::Finished(s) => {
                &&& sorted_strict(s.game_data_chunks@)
                &&& sorted_strict(s.keyframes@)
                &&& s.version == record.version
                &&& s.endpoint == record.endpoint
                &&& s.game_id == record.game_id
                &&& s.encryption_key == record.encryption_key
                &&& s.metadata == record.metadata
            },
            RunOutcome::Unfinished(rec) => {
                &&& rec.version == record.version
                &&& rec.endpoint == record.endpoint
                &&& rec.game_id == record.game_id
                &&& rec.encryption_key == record.encryption_key
                &&& rec.metadata == record.metadata
            },
        },
{
    let ghost init = record;
    let ghost init_chunks = record.game_data_chunks@;
    let ghost init_kf = record.keyframes@;
    let ghost whole_plan = attempt_plan(polls@, 1, 1);
    let mut record = record;
    let mut attempts: Vec<Attempt> = Vec::new();
    let mut expected_chunk_id: u64 = 1;
    let mut expected_keyframe_id: u64 = 1;
    let mut finished = false;
    let mut i: usize = 0;
    proof {
        assert(polls@.skip(0) =~= polls@);
        assert(attempt_seq(attempts@) =~= Seq::<(ItemKind, u32)>::empty());
        assert(Seq::<(ItemKind, u32)>::empty() + whole_plan =~= whole_plan);
    }
    while i < polls.len() && !finished
        invariant
            i <= polls@.len(),
            whole_plan == attempt_plan(polls@, 1, 1),
            !finished ==> attempt_seq(attempts@) + attempt_plan(
                polls@.skip(i as int),
                expected_chunk_id,
                expected_keyframe_id,
            ) == whole_plan,
            finished ==> attempt_seq(attempts@) == whole_plan,
            !finished ==> forall|j: int| 0 <= j < i ==> !is_terminal_poll(polls@[j]),
            finished ==> reaches_terminal(polls@),
            forall|x: u32|
                #![trigger record.game_data_chunks@.contains(x)]
                record.game_data_chunks@.contains(x) <==> (init_chunks.contains(x)
                    || stored_in(attempts@, ItemKind::Chunk, x)),
            forall|x: u32|
                #![trigger record.keyframes@.contains(x)]
                record.keyframes@.contains(x) <==> (init_kf.contains(x) || stored_in(
                    attempts@,
                    ItemKind::KeyFrame,
                    x,
                )),
            forall|j: int|
                #![trigger attempts@[j]]
                0 <= j < attempts@.len() ==> {
                    &&& (attempts@[j].outcome == ItemOutcome::Stored && attempts@[j].kind
                        == ItemKind::Chunk ==> source.has_chunk(attempts@[j].id))
                    &&& (attempts@[j].outcome == ItemOutcome::Stored && attempts@[j].kind
                        == ItemKind::KeyFrame ==> source.has_keyframe(attempts@[j].id))
                },
            record.version == init.version,
            record.endpoint == init.endpoint,
            record.game_id == init.game_id,
            record.encryption_key == init.encryption_key,
            record.metadata == init.metadata,
        decreases polls@.len() - i,
    {
        let ghost skipi = polls@.skip(i as int);
        let ghost skipi1 = polls@.skip(i + 1 as int);
        proof {
            assert(skipi.len() == polls@.len() - i);
            assert(skipi[0] == polls@[i as int]);
            assert(skipi.skip(1) =~= skipi1);
        }
        match polls[i] {
            PollOutcome::Failed => {
                // The live loop waits POLL_RETRY_WAIT_MS here and polls again.
                proof {
                    assert(attempt_plan(skipi, expected_chunk_id, expected_keyframe_id)
                        == attempt_plan(skipi1, expected_chunk_id, expected_keyframe_id));
                }
            },
            PollOutcome::Info(info) => {
                let ghost c_old = expected_chunk_id;
                let ghost k_old = expected_keyframe_id;
                let ghost here = plan_for_info(
                    expected_chunk_id,
                    expected_keyframe_id,
                    info,
                );
                let ghost pre = attempts@;
                let ghost led_pre_c = record.game_data_chunks@;
                let ghost led_pre_k = record.keyframes@;
                let mut added = handle_chunk_info(
                    &mut record,
                    expected_chunk_id,
                    expected_keyframe_id,
                    &info,
                    source,
                    storage,
                );
                let ghost add = added@;
                attempts.append(&mut added);
                proof {
                    assert(attempts@ == pre + add);
                    lemma_attempt_seq_concat(pre, add);
                    assert(attempt_seq(attempts@) == attempt_seq(pre) + here);

                    // The ledgers grew by exactly what these attempts stored.
                    assert forall|x: u32|
                        record.game_data_chunks@.contains(x) <==> (init_chunks.contains(x)
                            || stored_in(attempts@, ItemKind::Chunk, x)) by {
                        assert(led_pre_c.contains(x) <==> (init_chunks.contains(x)
                            || stored_in(pre, ItemKind::Chunk, x)));
                        assert(record.game_data_chunks@.contains(x) <==> (
                        led_pre_c.contains(x) || stored_in(add, ItemKind::Chunk, x)));
                        lemma_stored_in_concat(pre, add, ItemKind::Chunk, x);
                    }
                    assert forall|x: u32|
                        record.keyframes@.contains(x) <==> (init_kf.contains(x)
                            || stored_in(attempts@, ItemKind::KeyFrame, x)) by {
                        assert(led_pre_k.contains(x) <==> (init_kf.contains(x) || stored_in(
                            pre,
                            ItemKind::KeyFrame,
                            x,
                        )));
                        assert(record.keyframes@.contains(x) <==> (led_pre_k.contains(x)
                            || stored_in(add, ItemKind::KeyFrame, x)));
                        lemma_stored_in_concat(pre, add, ItemKind::KeyFrame, x);
                    }

                    // Everything stored was served by the source.
                    assert forall|j: int|
                        #![trigger attempts@[j]]
                        0 <= j < attempts@.len() implies {
                            &&& (attempts@[j].outcome == ItemOutcome::Stored
                                && attempts@[j].kind == ItemKind::Chunk ==> source.has_chunk(
                                attempts@[j].id,
                            ))
                            &&& (attempts@[j].outcome == ItemOutcome::Stored
                                && attempts@[j].kind == ItemKind::KeyFrame
                                ==> source.has_keyframe(attempts@[j].id))
                        } by {
                        if j < pre.len() {
                            assert(attempts@[j] == pre[j]);
                        } else {
                            assert(attempts@[j] == add[j - pre.len()]);
                        }
                    }
                }
                if session_complete(&info) {
                    finished = true;
                    proof {
                        assert(is_terminal_poll(polls@[i as int]));
                        assert(attempt_plan(skipi, c_old, k_old) == here);
                        assert(attempt_seq(attempts@) == whole_plan);
                    }
                } else {
                    expected_chunk_id = (info.chunk_id as u64) + 1;
                    expected_keyframe_id = (info.key_frame_id as u64) + 1;
                    // The live loop paces pacing_wait_ms(&info) here.
                    proof {
                        let rest = attempt_plan(
                            skipi1,
                            expected_chunk_id,
                            expected_keyframe_id,
                        );
                        assert(attempt_plan(skipi, c_old, k_old) == here + rest);
                        assert((attempt_seq(pre) + here) + rest =~= attempt_seq(pre) + (here
                            + rest));
                        assert(attempt_seq(attempts@) + rest == whole_plan);
                    }
                }
            },
        }
        i = i + 1;
    }
    if finished {
        let storage_metadata = storage.metadata();
        let snapshot = record.into_snapshot(storage_metadata);
        RunReport { outcome: RunOutcome::Finished(snapshot), attempts }
    } else {
        proof {
            assert(polls@.skip(polls@.len() as int) =~= Seq::<PollOutcome>::empty());
            assert(attempt_seq(attempts@) + Seq::<(ItemKind, u32)>::empty() =~= attempt_seq(
                attempts@,
            ));
            if reaches_terminal(polls@) {
                let j = choose|j: int| 0 <= j < polls@.len() && is_terminal_poll(polls@[j]);
                assert(false);
            }
        }
        RunReport { outcome: RunOutcome::Unfinished(record), attempts }
    }
}


/// The ledger only grows. Every pass relates its final ledger to its
/// initial one by the same law: an id is held afterwards exactly when it
/// was held before or the pass stored it. So no sequence of passes ever
/// loses a member.
pub proof fn lemma_ledger_monotonic(
    before: Seq<u32>,
    after: Seq<u32>,
    attempts: Seq<Attempt>,
    kind: ItemKind,
)
    requires
        forall|x: u32|
            #![trigger after.contains(x)]
            after.contains(x) <==> (before.contains(x) || stored_in(attempts, kind, x)),
    ensures
        forall|x: u32| before.contains(x) ==> after.contains(x),
{
}

} // verus!
