use spectator_recorder::api::endpoints::{
    GameKey, GameMetaData, LastChunkInfo, PendingAvailableChunkInfo, PendingAvailableKeyFrameInfo,
};

#[test]
fn last_chunk_info_describe_lists_every_field() {
    let info = LastChunkInfo {
        chunk_id: 53,
        available_since: 4197815,
        next_available_chunk: 0,
        key_frame_id: 26,
        next_chunk_id: 53,
        end_startup_chunk_id: 1,
        start_game_chunk_id: 2,
        end_game_chunk_id: 53,
        duration: 18869,
    };
    let expected = "Chunk ID: 53\n\
                    Available Since: 4197815\n\
                    Next Available Chunk: 0\n\
                    Key Frame ID: 26\n\
                    Next Chunk ID: 53\n\
                    End Startup Chunk ID: 1\n\
                    Start Game Chunk ID: 2\n\
                    End Game Chunk ID: 53\n\
                    Duration: 18869\n";
    assert_eq!(info.describe(), expected);
}

#[test]
fn game_meta_data_describe_lists_fields_and_pending_entries() {
    let metadata = GameMetaData {
        game_key: GameKey {
            game_id: 6654667050,
            platform_id: "KR".to_string(),
        },
        game_server_address: "192.0.2.10".to_string(),
        port: 8080,
        encryption_key: "abc".to_string(),
        chunk_time_interval: 30000,
        start_time: "Aug 15, 2023 8:01:42 PM".to_string(),
        game_ended: true,
        last_chunk_id: 4,
        last_key_frame_id: 2,
        end_startup_chunk_id: 1,
        delay_time: 180000,
        pending_available_chunk_info: vec![PendingAvailableChunkInfo {
            chunk_id: 5,
            duration: 30000,
            received_time: "Aug 15, 2023 8:04:00 PM".to_string(),
        }],
        pending_available_key_frame_info: vec![PendingAvailableKeyFrameInfo {
            key_frame_id: 3,
            received_time: "Aug 15, 2023 8:04:10 PM".to_string(),
            next_chunk_id: 6,
        }],
        key_frame_time_interval: 60000,
        decoded_encryption_key: "def".to_string(),
        start_game_chunk_id: 2,
        game_length: 0,
        client_added_lag: 30000,
        client_back_fetching_enabled: false,
        client_back_fetching_freq: 1000,
        interest_score: 2000,
        featured_game: false,
        create_time: "Aug 15, 2023 8:00:00 PM".to_string(),
        end_game_chunk_id: -1,
        end_game_key_frame_id: -1,
    };
    let expected = "Game Key: 6654667050 KR\n\
                    Server Address: 192.0.2.10\n\
                    Port: 8080\n\
                    Encryption Key: abc\n\
                    Chunk Time Interval: 30000\n\
                    Start Time: Aug 15, 2023 8:01:42 PM\n\
                    Game Ended: true\n\
                    Last Chunk ID: 4\n\
                    Last Key Frame ID: 2\n\
                    End Startup Chunk ID: 1\n\
                    Delay Time: 180000\n\
                    Key Frame Time Interval: 60000\n\
                    Decoded Encryption Key: def\n\
                    Start Game Chunk ID: 2\n\
                    Game Length: 0\n\
                    Client Added Lag: 30000\n\
                    Client Back Fetching Enabled: false\n\
                    Client Back Fetching Freq: 1000\n\
                    Interest Score: 2000\n\
                    Featured Game: false\n\
                    Create Time: Aug 15, 2023 8:00:00 PM\n\
                    End Game Chunk ID: -1\n\
                    End Game Key Frame ID: -1\n\
                    Pending Available Chunk Info:\n\
                    \tChunk ID: 5, Duration: 30000, Received Time: Aug 15, 2023 8:04:00 PM\n\
                    Pending Available Key Frame Info:\n\
                    \tKey Frame ID: 3, Received Time: Aug 15, 2023 8:04:10 PM, Next Chunk ID: 6\n";
    assert_eq!(metadata.describe(), expected);
}
