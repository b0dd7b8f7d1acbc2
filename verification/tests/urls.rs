use spectator_recorder::api::endpoints::{
    game_data_chunk_url, game_meta_data_url, keyframe_url, last_chunk_info_url, version_url,
};
use spectator_recorder::api::utils::Region;

#[test]
fn test_version_url() {
    let endpoint = Region::KR.to_endpoint();
    assert_eq!(
        version_url(&endpoint),
        "http://spectator-consumer.kr.lol.pvp.net:80/observer-mode/rest/consumer/version"
    );
}

#[test]
fn test_game_meta_data_url() {
    let endpoint = Region::KR.to_endpoint();
    assert_eq!(
        game_meta_data_url(&endpoint, "6654667050"),
        "http://spectator-consumer.kr.lol.pvp.net:80/observer-mode/rest/consumer/getGameMetaData/KR/6654667050/token"
    );
}

#[test]
fn test_last_chunk_info_url() {
    let endpoint = Region::KR.to_endpoint();
    assert_eq!(
        last_chunk_info_url(&endpoint, "6654667050"),
        "http://spectator-consumer.kr.lol.pvp.net:80/observer-mode/rest/consumer/getLastChunkInfo/KR/6654667050/0/token"
    );
}

#[test]
fn test_game_data_chunk_url() {
    let endpoint = Region::KR.to_endpoint();
    assert_eq!(
        game_data_chunk_url(&endpoint, "6654667050", 1),
        "http://spectator-consumer.kr.lol.pvp.net:80/observer-mode/rest/consumer/getGameDataChunk/KR/6654667050/1/token"
    );
}

#[test]
fn test_keyframe_url() {
    let endpoint = Region::KR.to_endpoint();
    assert_eq!(
        keyframe_url(&endpoint, "6654667050", 26),
        "http://spectator-consumer.kr.lol.pvp.net:80/observer-mode/rest/consumer/getKeyFrame/KR/6654667050/26/token"
    );
}
