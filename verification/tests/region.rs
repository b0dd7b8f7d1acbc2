use std::str::FromStr;

use spectator_recorder::api::utils::{base_url, u32_to_string, Region};

#[test]
fn test_region_from_str_valid() {
    assert_eq!(Region::from_str("kr"), Ok(Region::KR));
    assert_eq!(Region::from_str("euw1"), Ok(Region::EUW1));
    assert_eq!(Region::from_str("na1"), Ok(Region::NA1));
}

#[test]
fn test_region_from_str_invalid() {
    assert_eq!(
        Region::from_str("invalid"),
        Err("'invalid' is not a valid region".to_string())
    );
    assert_eq!(
        Region::from_str("xyz"),
        Err("'xyz' is not a valid region".to_string())
    );
}

#[test]
fn test_region_display() {
    assert_eq!(Region::KR.code(), "kr");
    assert_eq!(Region::EUW1.code(), "euw1");
    assert_eq!(Region::NA1.code(), "na1");
}

#[test]
fn test_base_url() {
    assert_eq!(
        base_url(&Region::KR),
        "http://spectator-consumer.kr.lol.pvp.net:80"
    );
    assert_eq!(
        base_url(&Region::EUW1),
        "http://spectator-consumer.euw1.lol.pvp.net:80"
    );
    assert_eq!(
        base_url(&Region::NA1),
        "http://spectator-consumer.na1.lol.pvp.net:80"
    );
}

#[test]
fn test_platform_id() {
    assert_eq!(Region::KR.platform_id(), "KR");
    assert_eq!(Region::EUW1.platform_id(), "EUW1");
    assert_eq!(Region::NA1.platform_id(), "NA1");
}

#[test]
fn test_to_endpoint() {
    let kr_endpoint = Region::KR.to_endpoint();
    assert_eq!(
        kr_endpoint.base_url,
        "http://spectator-consumer.kr.lol.pvp.net:80"
    );
    assert_eq!(kr_endpoint.platform_id, "KR");

    let euw1_endpoint = Region::EUW1.to_endpoint();
    assert_eq!(
        euw1_endpoint.base_url,
        "http://spectator-consumer.euw1.lol.pvp.net:80"
    );
    assert_eq!(euw1_endpoint.platform_id, "EUW1");

    let na1_endpoint = Region::NA1.to_endpoint();
    assert_eq!(
        na1_endpoint.base_url,
        "http://spectator-consumer.na1.lol.pvp.net:80"
    );
    assert_eq!(na1_endpoint.platform_id, "NA1");
}

#[test]
fn test_u32_to_string_digits() {
    assert_eq!(u32_to_string(0), "0");
    assert_eq!(u32_to_string(7), "7");
    assert_eq!(u32_to_string(10), "10");
    assert_eq!(u32_to_string(53), "53");
    assert_eq!(u32_to_string(123456789), "123456789");
    assert_eq!(u32_to_string(u32::MAX), "4294967295");
}
