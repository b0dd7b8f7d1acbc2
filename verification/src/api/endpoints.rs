use vstd::prelude::*;
use vstd::string::StringExecFns;

use super::models::SpectatorEndpoint;
use super::utils::spec_bool_string;
use super::utils::spec_dec_string;
use super::utils::spec_signed_dec_string;
use super::utils::bool_to_string;
use super::utils::i32_to_string;
use super::utils::u64_to_string;
use super::utils::u32_to_string;

verus! {

/// One-time descriptive payload of a session, fetched once at session start
/// and kept for the final report.
pub struct GameMetaData {
    pub game_key: GameKey,
    pub game_server_address: String,
    pub port: u32,
    pub encryption_key: String,
    pub chunk_time_interval: u32,
    pub start_time: String,
    pub game_ended: bool,
    pub last_chunk_id: u32,
    pub last_key_frame_id: u32,
    pub end_startup_chunk_id: u32,
    pub delay_time: u32,
    pub pending_available_chunk_info: Vec<PendingAvailableChunkInfo>,
    pub pending_available_key_frame_info: Vec<PendingAvailableKeyFrameInfo>,
    pub key_frame_time_interval: u64,
    pub decoded_encryption_key: String,
    pub start_game_chunk_id: u32,
    pub game_length: u32,
    pub client_added_lag: u32,
    pub client_back_fetching_enabled: bool,
    pub client_back_fetching_freq: u32,
    pub interest_score: u32,
    pub featured_game: bool,
    pub create_time: String,
    pub end_game_chunk_id: i32,
    pub end_game_key_frame_id: i32,
}

pub struct GameKey {
    pub game_id: u64,
    pub platform_id: String,
}

pub struct PendingAvailableChunkInfo {
    pub chunk_id: u32,
    pub duration: u32,
    pub received_time: String,
}

pub struct PendingAvailableKeyFrameInfo {
    pub key_frame_id: u32,
    pub received_time: String,
    pub next_chunk_id: u32,
}

/// Snapshot returned by the server on each poll: which chunk and keyframe
/// were most recently made available, when the next one is due, and where
/// the session ends.
#[derive(Debug, Clone, Copy, PartialEq, Eq, Structural)]
pub struct LastChunkInfo {
    pub chunk_id: u32,
    pub available_since: u64,
    pub next_available_chunk: u32,
    pub key_frame_id: u32,
    pub next_chunk_id: u32,
    pub end_startup_chunk_id: u32,
    pub start_game_chunk_id: u32,
    pub end_game_chunk_id: u32,
    pub duration: u32,
}

pub open spec fn spec_version_url(base: Seq<char>) -> Seq<char> {
    base + "/observer-mode/rest/consumer/version"@
}

pub open spec fn spec_game_meta_data_url(
    base: Seq<char>,
    platform_id: Seq<char>,
    game_id: Seq<char>,
) -> Seq<char> {
    base + "/observer-mode/rest/consumer/getGameMetaData/"@ + platform_id + "/"@ + game_id
        + "/token"@
}

pub open spec fn spec_last_chunk_info_url(
    base: Seq<char>,
    platform_id: Seq<char>,
    game_id: Seq<char>,
) -> Seq<char> {
    base + "/observer-mode/rest/consumer/getLastChunkInfo/"@ + platform_id + "/"@ + game_id
        + "/0/token"@
}

pub open spec fn spec_game_data_chunk_url(
    base: Seq<char>,
    platform_id: Seq<char>,
    game_id: Seq<char>,
    chunk_id: u32,
) -> Seq<char> {
    base + "/observer-mode/rest/consumer/getGameDataChunk/"@ + platform_id + "/"@ + game_id
        + "/"@ + spec_dec_string(chunk_id as nat) + "/token"@
}

pub open spec fn spec_keyframe_url(
    base: Seq<char>,
    platform_id: Seq<char>,
    game_id: Seq<char>,
    keyframe_id: u32,
) -> Seq<char> {
    base + "/observer-mode/rest/consumer/getKeyFrame/"@ + platform_id + "/"@ + game_id + "/"@
        + spec_dec_string(keyframe_id as nat) + "/token"@
}

/// Where the protocol version is fetched from.
pub fn version_url(endpoint: &SpectatorEndpoint) -> (r: String)
    ensures
        r@ == spec_version_url(endpoint.base_url@),
{
    let mut url = endpoint.base_url.clone();
    url.append("/observer-mode/rest/consumer/version");
    url
}

/// Where the session metadata is fetched from.
pub fn game_meta_data_url(endpoint: &SpectatorEndpoint, game_id: &str) -> (r: String)
    ensures
        r@ == spec_game_meta_data_url(endpoint.base_url@, endpoint.platform_id@, game_id@),
{
    let mut url = endpoint.base_url.clone();
    url.append("/observer-mode/rest/consumer/getGameMetaData/");
    url.append(endpoint.platform_id.as_str());
    url.append("/");
    url.append(game_id);
    url.append("/token");
    proof {
        assert(url@ =~= spec_game_meta_data_url(
            endpoint.base_url@,
            endpoint.platform_id@,
            game_id@,
        ));
    }
    url
}

/// Where the latest chunk info is polled from.
pub fn last_chunk_info_url(endpoint: &SpectatorEndpoint, game_id: &str) -> (r: String)
    ensures
        r@ == spec_last_chunk_info_url(endpoint.base_url@, endpoint.platform_id@, game_id@),
{
    let mut url = endpoint.base_url.clone();
    url.append("/observer-mode/rest/consumer/getLastChunkInfo/");
    url.append(endpoint.platform_id.as_str());
    url.append("/");
    url.append(game_id);
    url.append("/0/token");
    proof {
        assert(url@ =~= spec_last_chunk_info_url(
            endpoint.base_url@,
            endpoint.platform_id@,
            game_id@,
        ));
    }
    url
}

/// Where the payload of one chunk is fetched from.
pub fn game_data_chunk_url(endpoint: &SpectatorEndpoint, game_id: &str, chunk_id: u32) -> (r:
    String)
    ensures
        r@ == spec_game_data_chunk_url(
            endpoint.base_url@,
            endpoint.platform_id@,
            game_id@,
            chunk_id,
        ),
{
    let mut url = endpoint.base_url.clone();
    url.append("/observer-mode/rest/consumer/getGameDataChunk/");
    url.append(endpoint.platform_id.as_str());
    url.append("/");
    url.append(game_id);
    url.append("/");
    let id = u32_to_string(chunk_id);
    url.append(id.as_str());
    url.append("/token");
    proof {
        assert(url@ =~= spec_game_data_chunk_url(
            endpoint.base_url@,
            endpoint.platform_id@,
            game_id@,
            chunk_id,
        ));
    }
    url
}

/// Where the payload of one keyframe is fetched from.
pub fn keyframe_url(endpoint: &SpectatorEndpoint, game_id: &str, keyframe_id: u32) -> (r: String)
    ensures
        r@ == spec_keyframe_url(
            endpoint.base_url@,
            endpoint.platform_id@,
            game_id@,
            keyframe_id,
        ),
{
    let mut url = endpoint.base_url.clone();
    url.append("/observer-mode/rest/consumer/getKeyFrame/");
    url.append(endpoint.platform_id.as_str());
    url.append("/");
    url.append(game_id);
    url.append("/");
    let id = u32_to_string(keyframe_id);
    url.append(id.as_str());
    url.append("/token");
    proof {
        assert(url@ =~= spec_keyframe_url(
            endpoint.base_url@,
            endpoint.platform_id@,
            game_id@,
            keyframe_id,
        ));
    }
    url
}


/// One written line of a report: a label, a value, a line break.
pub open spec fn spec_line(label: Seq<char>, value: Seq<char>) -> Seq<char> {
    label + value + "\n"@
}

/// One written entry of the pending chunk list.
pub open spec fn spec_pending_chunk_line(p: PendingAvailableChunkInfo) -> Seq<char> {
    "\tChunk ID: "@ + spec_dec_string(p.chunk_id as nat) + ", Duration: "@ + spec_dec_string(
        p.duration as nat,
    ) + ", Received Time: "@ + p.received_time@ + "\n"@
}

/// The written pending chunk list, in order.
pub open spec fn spec_pending_chunk_lines(s: Seq<PendingAvailableChunkInfo>) -> Seq<char>
    decreases s.len(),
{
    if s.len() == 0 {
        Seq::empty()
    } else {
        spec_pending_chunk_lines(s.drop_last()) + spec_pending_chunk_line(s.last())
    }
}

/// One written entry of the pending keyframe list.
pub open spec fn spec_pending_keyframe_line(p: PendingAvailableKeyFrameInfo) -> Seq<char> {
    "\tKey Frame ID: "@ + spec_dec_string(p.key_frame_id as nat) + ", Received Time: "@
        + p.received_time@ + ", Next Chunk ID: "@ + spec_dec_string(p.next_chunk_id as nat)
        + "\n"@
}

/// The written pending keyframe list, in order.
pub open spec fn spec_pending_keyframe_lines(s: Seq<PendingAvailableKeyFrameInfo>) -> Seq<char>
    decreases s.len(),
{
    if s.len() == 0 {
        Seq::empty()
    } else {
        spec_pending_keyframe_lines(s.drop_last()) + spec_pending_keyframe_line(s.last())
    }
}

/// The metadata written out field by field, for diagnostics.
pub open spec fn spec_game_meta_data_text(m: GameMetaData) -> Seq<char> {
    spec_line(
        "Game Key: "@,
        spec_dec_string(m.game_key.game_id as nat) + " "@ + m.game_key.platform_id@,
    ) + spec_line("Server Address: "@, m.game_server_address@) + spec_line(
        "Port: "@,
        spec_dec_string(m.port as nat),
    ) + spec_line("Encryption Key: "@, m.encryption_key@) + spec_line(
        "Chunk Time Interval: "@,
        spec_dec_string(m.chunk_time_interval as nat),
    ) + spec_line("Start Time: "@, m.start_time@) + spec_line(
        "Game Ended: "@,
        spec_bool_string(m.game_ended),
    ) + spec_line("Last Chunk ID: "@, spec_dec_string(m.last_chunk_id as nat)) + spec_line(
        "Last Key Frame ID: "@,
        spec_dec_string(m.last_key_frame_id as nat),
    ) + spec_line(
        "End Startup Chunk ID: "@,
        spec_dec_string(m.end_startup_chunk_id as nat),
    ) + spec_line("Delay Time: "@, spec_dec_string(m.delay_time as nat)) + spec_line(
        "Key Frame Time Interval: "@,
        spec_dec_string(m.key_frame_time_interval as nat),
    ) + spec_line("Decoded Encryption Key: "@, m.decoded_encryption_key@) + spec_line(
        "Start Game Chunk ID: "@,
        spec_dec_string(m.start_game_chunk_id as nat),
    ) + spec_line("Game Length: "@, spec_dec_string(m.game_length as nat)) + spec_line(
        "Client Added Lag: "@,
        spec_dec_string(m.client_added_lag as nat),
    ) + spec_line(
        "Client Back Fetching Enabled: "@,
        spec_bool_string(m.client_back_fetching_enabled),
    ) + spec_line(
        "Client Back Fetching Freq: "@,
        spec_dec_string(m.client_back_fetching_freq as nat),
    ) + spec_line("Interest Score: "@, spec_dec_string(m.interest_score as nat)) + spec_line(
        "Featured Game: "@,
        spec_bool_string(m.featured_game),
    ) + spec_line("Create Time: "@, m.create_time@) + spec_line(
        "End Game Chunk ID: "@,
        spec_signed_dec_string(m.end_game_chunk_id as int),
    ) + spec_line(
        "End Game Key Frame ID: "@,
        spec_signed_dec_string(m.end_game_key_frame_id as int),
    ) + "Pending Available Chunk Info:\n"@ + spec_pending_chunk_lines(
        m.pending_available_chunk_info@,
    ) + "Pending Available Key Frame Info:\n"@ + spec_pending_keyframe_lines(
        m.pending_available_key_frame_info@,
    )
}

/// The poll report written out field by field, for diagnostics.
pub open spec fn spec_last_chunk_info_text(c: LastChunkInfo) -> Seq<char> {
    spec_line("Chunk ID: "@, spec_dec_string(c.chunk_id as nat)) + spec_line(
        "Available Since: "@,
        spec_dec_string(c.available_since as nat),
    ) + spec_line(
        "Next Available Chunk: "@,
        spec_dec_string(c.next_available_chunk as nat),
    ) + spec_line("Key Frame ID: "@, spec_dec_string(c.key_frame_id as nat)) + spec_line(
        "Next Chunk ID: "@,
        spec_dec_string(c.next_chunk_id as nat),
    ) + spec_line(
        "End Startup Chunk ID: "@,
        spec_dec_string(c.end_startup_chunk_id as nat),
    ) + spec_line(
        "Start Game Chunk ID: "@,
        spec_dec_string(c.start_game_chunk_id as nat),
    ) + spec_line("End Game Chunk ID: "@, spec_dec_string(c.end_game_chunk_id as nat))
        + spec_line("Duration: "@, spec_dec_string(c.duration as nat))
}

/// Appends one labelled line.
fn push_field(out: &mut String, label: &str, value: &str)
    ensures
        final(out)@ == old(out)@ + spec_line(label@, value@),
{
    out.append(label);
    out.append(value);
    out.append("\n");
    proof {
        assert(out@ =~= old(out)@ + spec_line(label@, value@));
    }
}

impl LastChunkInfo {
    /// Writes the report out line by line, for diagnostics.
    pub fn describe(&self) -> (r: String)
        ensures
            r@ == spec_last_chunk_info_text(*self),
    {
        let mut out = String::new();
        let value = u32_to_string(self.chunk_id);
        push_field(&mut out, "Chunk ID: ", value.as_str());
        proof {
            assert(out@ =~= spec_line("Chunk ID: "@, spec_dec_string(self.chunk_id as nat)));
        }
        let value = u64_to_string(self.available_since);
        push_field(&mut out, "Available Since: ", value.as_str());
        let value = u32_to_string(self.next_available_chunk);
        push_field(&mut out, "Next Available Chunk: ", value.as_str());
        let value = u32_to_string(self.key_frame_id);
        push_field(&mut out, "Key Frame ID: ", value.as_str());
        let value = u32_to_string(self.next_chunk_id);
        push_field(&mut out, "Next Chunk ID: ", value.as_str());
        let value = u32_to_string(self.end_startup_chunk_id);
        push_field(&mut out, "End Startup Chunk ID: ", value.as_str());
        let value = u32_to_string(self.start_game_chunk_id);
        push_field(&mut out, "Start Game Chunk ID: ", value.as_str());
        let value = u32_to_string(self.end_game_chunk_id);
        push_field(&mut out, "End Game Chunk ID: ", value.as_str());
        let value = u32_to_string(self.duration);
        push_field(&mut out, "Duration: ", value.as_str());
        out
    }
}


impl GameMetaData {
    /// Writes the metadata out field by field, for diagnostics.
    pub fn describe(&self) -> (r: String)
        ensures
            r@ == spec_game_meta_data_text(*self),
    {
        let mut out = String::new();
        let mut game_key_value = u64_to_string(self.game_key.game_id);
        game_key_value.append(" ");
        game_key_value.append(self.game_key.platform_id.as_str());
        push_field(&mut out, "Game Key: ", game_key_value.as_str());
        proof {
            assert(out@ =~= spec_line(
                "Game Key: "@,
                spec_dec_string(self.game_key.game_id as nat) + " "@
                    + self.game_key.platform_id@,
            ));
        }
        push_field(&mut out, "Server Address: ", self.game_server_address.as_str());
        let value = u32_to_string(self.port);
        push_field(&mut out, "Port: ", value.as_str());
        push_field(&mut out, "Encryption Key: ", self.encryption_key.as_str());
        let value = u32_to_string(self.chunk_time_interval);
        push_field(&mut out, "Chunk Time Interval: ", value.as_str());
        push_field(&mut out, "Start Time: ", self.start_time.as_str());
        let value = bool_to_string(self.game_ended);
        push_field(&mut out, "Game Ended: ", value.as_str());
        let value = u32_to_string(self.last_chunk_id);
        push_field(&mut out, "Last Chunk ID: ", value.as_str());
        let value = u32_to_string(self.last_key_frame_id);
        push_field(&mut out, "Last Key Frame ID: ", value.as_str());
        let value = u32_to_string(self.end_startup_chunk_id);
        push_field(&mut out, "End Startup Chunk ID: ", value.as_str());
        let value = u32_to_string(self.delay_time);
        push_field(&mut out, "Delay Time: ", value.as_str());
        let value = u64_to_string(self.key_frame_time_interval);
        push_field(&mut out, "Key Frame Time Interval: ", value.as_str());
        push_field(&mut out, "Decoded Encryption Key: ", self.decoded_encryption_key.as_str());
        let value = u32_to_string(self.start_game_chunk_id);
        push_field(&mut out, "Start Game Chunk ID: ", value.as_str());
        let value = u32_to_string(self.game_length);
        push_field(&mut out, "Game Length: ", value.as_str());
        let value = u32_to_string(self.client_added_lag);
        push_field(&mut out, "Client Added Lag: ", value.as_str());
        let value = bool_to_string(self.client_back_fetching_enabled);
        push_field(&mut out, "Client Back Fetching Enabled: ", value.as_str());
        let value = u32_to_string(self.client_back_fetching_freq);
        push_field(&mut out, "Client Back Fetching Freq: ", value.as_str());
        let value = u32_to_string(self.interest_score);
        push_field(&mut out, "Interest Score: ", value.as_str());
        let value = bool_to_string(self.featured_game);
        push_field(&mut out, "Featured Game: ", value.as_str());
        push_field(&mut out, "Create Time: ", self.create_time.as_str());
        let value = i32_to_string(self.end_game_chunk_id);
        push_field(&mut out, "End Game Chunk ID: ", value.as_str());
        let value = i32_to_string(self.end_game_key_frame_id);
        push_field(&mut out, "End Game Key Frame ID: ", value.as_str());

        out.append("Pending Available Chunk Info:\n");
        let ghost chunk_head = out@;
        let ghost chunk_entries = self.pending_available_chunk_info@;
        let mut i: usize = 0;
        while i < self.pending_available_chunk_info.len()
            invariant
                i <= chunk_entries.len(),
                chunk_entries == self.pending_available_chunk_info@,
                out@ == chunk_head + spec_pending_chunk_lines(chunk_entries.take(i as int)),
            decreases chunk_entries.len() - i,
        {
            let ghost before = out@;
            let entry = &self.pending_available_chunk_info[i];
            out.append("\tChunk ID: ");
            let value = u32_to_string(entry.chunk_id);
            out.append(value.as_str());
            out.append(", Duration: ");
            let value = u32_to_string(entry.duration);
            out.append(value.as_str());
            out.append(", Received Time: ");
            out.append(entry.received_time.as_str());
            out.append("\n");
            proof {
                assert(out@ =~= before + spec_pending_chunk_line(chunk_entries[i as int]));
                assert(chunk_entries.take(i + 1 as int).drop_last() =~= chunk_entries.take(
                    i as int,
                ));
                assert(chunk_entries.take(i + 1 as int).last() == chunk_entries[i as int]);
                assert(out@ =~= chunk_head + spec_pending_chunk_lines(
                    chunk_entries.take(i + 1 as int),
                ));
            }
            i = i + 1;
        }
        proof {
            assert(chunk_entries.take(chunk_entries.len() as int) =~= chunk_entries);
        }

        out.append("Pending Available Key Frame Info:\n");
        let ghost keyframe_head = out@;
        let ghost keyframe_entries = self.pending_available_key_frame_info@;
        let mut i: usize = 0;
        while i < self.pending_available_key_frame_info.len()
            invariant
                i <= keyframe_entries.len(),
                keyframe_entries == self.pending_available_key_frame_info@,
                out@ == keyframe_head + spec_pending_keyframe_lines(
                    keyframe_entries.take(i as int),
                ),
            decreases keyframe_entries.len() - i,
        {
            let ghost before = out@;
            let entry = &self.pending_available_key_frame_info[i];
            out.append("\tKey Frame ID: ");
            let value = u32_to_string(entry.key_frame_id);
            out.append(value.as_str());
            out.append(", Received Time: ");
            out.append(entry.received_time.as_str());
            out.append(", Next Chunk ID: ");
            let value = u32_to_string(entry.next_chunk_id);
            out.append(value.as_str());
            out.append("\n");
            proof {
                assert(out@ =~= before + spec_pending_keyframe_line(
                    keyframe_entries[i as int],
                ));
                assert(keyframe_entries.take(i + 1 as int).drop_last()
                    =~= keyframe_entries.take(i as int));
                assert(keyframe_entries.take(i + 1 as int).last() == keyframe_entries[i as int]);
                assert(out@ =~= keyframe_head + spec_pending_keyframe_lines(
                    keyframe_entries.take(i + 1 as int),
                ));
            }
            i = i + 1;
        }
        proof {
            assert(keyframe_entries.take(keyframe_entries.len() as int) =~= keyframe_entries);
            assert(out@ =~= spec_game_meta_data_text(*self));
        }
        out
    }
}

} // verus!
