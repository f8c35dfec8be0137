use sonetto::sdk::{
    positive_query_value, requested_channel_id, requested_game_channel,
    should_recover_local_auto_login, visitor_credentials, device_id_from_payload, VisitorPayload, AppPackageInfo, DiffUpdateResourceReq,
};

#[test]
fn recovers_missing_or_stale_local_auto_login() {
    assert!(should_recover_local_auto_login("User not found"));
    assert!(should_recover_local_auto_login("Invalid token"));
    assert!(!should_recover_local_auto_login("database is locked"));
}

#[test]
fn derives_stable_visitor_credentials_from_device_id() {
    assert_eq!(
        visitor_credentials("1289722253"),
        (
            "visitor_1289722253@local.sonetto".to_string(),
            "visitor:1289722253".to_string()
        )
    );
}

#[test]
fn empty_device_id_uses_anonymous_fallback() {
    assert_eq!(
        visitor_credentials(" "),
        (
            "visitor_anonymous@local.sonetto".to_string(),
            "visitor:anonymous".to_string()
        )
    );
}

#[test]
fn visitor_device_id_is_trimmed_of_unicode_white_space() {
    assert_eq!(
        visitor_credentials("\u{3000}\tabc \n"),
        (
            "visitor_abc@local.sonetto".to_string(),
            "visitor:abc".to_string()
        )
    );
}

fn query(pairs: &[(&str, &str)]) -> Vec<(String, String)> {
    pairs
        .iter()
        .map(|(k, v)| (k.to_string(), v.to_string()))
        .collect()
}

#[test]
fn query_values_match_names_ignoring_ascii_case() {
    let q = query(&[("GAMEID", "60001"), ("channelid", "7")]);
    assert_eq!(positive_query_value(&q, "gameId"), Some(60001));
    assert_eq!(positive_query_value(&q, "channelId"), Some(7));
    assert_eq!(positive_query_value(&q, "other"), None);
    let q = query(&[("gameId", "-5")]);
    assert_eq!(positive_query_value(&q, "gameId"), None);
}

#[test]
fn sdk_init_defaults_follow_the_requested_game() {
    assert_eq!(requested_game_channel(&query(&[])), (50001, 100));
    assert_eq!(
        requested_game_channel(&query(&[("gameId", "60001")])),
        (60001, 200)
    );
    assert_eq!(
        requested_game_channel(&query(&[("gameId", "12345"), ("channelId", "9")])),
        (50001, 9)
    );
}

#[test]
fn login_verify_channel_falls_back_to_the_game_default() {
    let info = |channel: &str, game_id: i64| AppPackageInfo {
        channel_id: channel.to_string(),
        game_id,
    };
    assert_eq!(requested_channel_id(&info("300", 50001)), 300);
    assert_eq!(requested_channel_id(&info("0", 60001)), 200);
    assert_eq!(requested_channel_id(&info("abc", 50001)), 100);
}

#[test]
fn diff_update_accepts_only_the_cn_game() {
    assert!(DiffUpdateResourceReq { game_id: 50001 }.is_supported());
    assert!(!DiffUpdateResourceReq { game_id: 60001 }.is_supported());
}

#[test]
fn reads_device_id_from_visitor_payload() {
    let payload = VisitorPayload {
        device_id: Some("device-1".to_string()),
    };

    assert_eq!(device_id_from_payload(&payload), "device-1");
}

#[test]
fn missing_device_id_reads_as_anonymous() {
    assert_eq!(device_id_from_payload(&VisitorPayload { device_id: None }), "anonymous");
}
