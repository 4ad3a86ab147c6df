use ghosty::friends::{
    format_friends_summary, friends_from_value, normalize_friend_availability, normalize_friend_product,
    ordered_counts,
};
use ghosty::json::{JsonNumber, JsonValue};
use ghosty::lcu::{
    build_opgg_multisearch_link, build_opgg_summoner_link, current_summoner_riot_id, normalize_endpoint,
    normalize_method, opgg_region_slug, riot_ids_from_champ_select_session, riot_ids_from_chat_participants,
    summoner_ids_from_champ_select_session, summoner_ids_from_lobby, lcu_response_from_value, ChatParticipant, LcuError,
};

fn s(text: &str) -> JsonValue {
    JsonValue::Str(text.to_string())
}

fn n(value: u64) -> JsonValue {
    JsonValue::Number(JsonNumber::Unsigned(value))
}

fn obj(members: Vec<(&str, JsonValue)>) -> JsonValue {
    JsonValue::Object(members.into_iter().map(|(k, v)| (k.to_string(), v)).collect())
}

fn ids(pairs: &[(&str, &str)]) -> Vec<(String, String)> {
    pairs.iter().map(|(a, b)| (a.to_string(), b.to_string())).collect()
}

#[test]
fn normalizes_lcu_endpoints_and_methods() {
    assert_eq!(normalize_method("patch").unwrap(), "PATCH");
    assert_eq!(
        normalize_endpoint("lol-summoner/v1/current-summoner").unwrap(),
        "/lol-summoner/v1/current-summoner"
    );
    assert_eq!(normalize_endpoint("/lol-chat/v1/friends?foo=bar").unwrap(), "/lol-chat/v1/friends?foo=bar");
}

#[test]
fn rejects_non_lcu_targets() {
    assert!(normalize_endpoint("https://127.0.0.1:2999/Help").is_err());
    assert!(normalize_endpoint("/GetLiveclientdataAllgamedata").is_err());
    assert!(normalize_endpoint("../lol-chat/v1/friends").is_err());
    assert!(normalize_endpoint("/lol-chat/v1/friends#fragment").is_err());
    assert!(normalize_method("TRACE").is_err());
}

#[test]
fn reads_current_summoner_riot_id_from_game_name_and_tag_line() {
    let value = obj(vec![("displayName", s("ignored")), ("gameName", s("Ghosty User")), ("tagLine", s("NA1"))]);

    let (game_name, tag_line) = current_summoner_riot_id(&value).unwrap();

    assert_eq!(game_name, "Ghosty User");
    assert_eq!(tag_line, "NA1");
}

#[test]
fn reads_current_summoner_riot_id_from_display_name_fallback() {
    let value = obj(vec![("displayName", s("Ghosty#EUW"))]);

    let (game_name, tag_line) = current_summoner_riot_id(&value).unwrap();

    assert_eq!(game_name, "Ghosty");
    assert_eq!(tag_line, "EUW");
}

#[test]
fn current_summoner_without_riot_id_is_refused() {
    let value = obj(vec![("displayName", s("NoTag"))]);

    assert!(matches!(current_summoner_riot_id(&value), Err(LcuError::NoRiotId)));
}

#[test]
fn builds_opgg_link_with_region_mapping_and_path_encoding() {
    assert_eq!(opgg_region_slug("NA1"), "na");
    assert_eq!(opgg_region_slug("EUW1"), "euw");
    assert_eq!(
        build_opgg_summoner_link("NA1", "Ghosty User", "N#1"),
        "https://www.op.gg/summoners/na/Ghosty%20User-N%231"
    );
}

fn chat_participant(cid: &str, game_name: &str, game_tag: &str, name: &str) -> ChatParticipant {
    ChatParticipant {
        cid: cid.to_string(),
        game_name: game_name.to_string(),
        game_tag: game_tag.to_string(),
        name: name.to_string(),
    }
}

#[test]
fn reads_champ_select_riot_ids_from_chat_participants() {
    let participants = vec![
        chat_participant("lol-champ-select-1", "Ghosty", "NA1", "ignored"),
        chat_participant("lol-champ-select-1", "", "", "Duo User#NA2"),
        chat_participant("other-chat", "Ignored", "NA3", "Ignored#NA3"),
    ];

    let found = riot_ids_from_chat_participants(&participants);

    assert_eq!(found, ids(&[("Ghosty", "NA1"), ("Duo User", "NA2")]));
}

fn champ_select_session() -> JsonValue {
    obj(vec![
        (
            "myTeam",
            JsonValue::Array(vec![
                obj(vec![("riotIdGameName", s("Ghosty")), ("riotIdTagLine", s("NA1")), ("summonerId", n(123))]),
                obj(vec![("gameName", s("Duo User")), ("summonerId", n(456)), ("tagLine", s("NA2"))]),
            ]),
        ),
        (
            "theirTeam",
            JsonValue::Array(vec![obj(vec![
                ("riotIdGameName", s("Enemy")),
                ("riotIdTagLine", s("NA3")),
                ("summonerId", n(789)),
            ])]),
        ),
    ])
}

#[test]
fn reads_champ_select_riot_ids_from_session() {
    let value = champ_select_session();

    assert_eq!(riot_ids_from_champ_select_session(&value), ids(&[("Ghosty", "NA1"), ("Duo User", "NA2")]));
    assert_eq!(summoner_ids_from_champ_select_session(&value), vec![123, 456]);
}

#[test]
fn reads_lobby_summoner_ids() {
    let value = obj(vec![(
        "members",
        JsonValue::Array(vec![
            obj(vec![("summonerId", n(456))]),
            obj(vec![("summonerId", s("123"))]),
            obj(vec![("summonerId", n(456))]),
        ]),
    )]);

    assert_eq!(summoner_ids_from_lobby(&value), vec![123, 456]);
}

#[test]
fn lobby_summoner_ids_read_the_snake_case_field_and_skip_unreadable_ids() {
    let value = obj(vec![(
        "members",
        JsonValue::Array(vec![
            obj(vec![("summoner_id", s("+77"))]),
            obj(vec![("summonerId", s("not a number"))]),
            obj(vec![("name", s("nobody"))]),
        ]),
    )]);

    assert_eq!(summoner_ids_from_lobby(&value), vec![77]);
}

#[test]
fn builds_opgg_multisearch_link() {
    let summoners = ids(&[("Ghosty", "NA1"), ("Duo User", "N#2")]);

    assert_eq!(
        build_opgg_multisearch_link("NA1", &summoners),
        "https://op.gg/lol/multisearch?summoners=Ghosty%23NA1%2CDuo%20User%23N%232&region=na"
    );
}

#[test]
fn summarizes_lol_chat_friends() {
    let value = JsonValue::Array(vec![
        obj(vec![
            ("availability", s("chat")),
            ("gameName", s("Ghosty")),
            ("product", s("league_of_legends")),
            ("tagLine", s("NA1")),
        ]),
        obj(vec![("availability", s("mobile")), ("displayName", s("Mobile Pal#NA2")), ("product", s("riot_mobile"))]),
        obj(vec![("availability", s("offline")), ("name", s("Offline Friend"))]),
    ]);

    let friends = friends_from_value(&value);
    let summary = format_friends_summary(&friends);

    assert_eq!(
        summary,
        "Friends: 3 total. Statuses: online 1, mobile 1, offline 1. Products: League 1, Riot Mobile 1, Unknown 1."
    );
}

#[test]
fn summarizes_empty_friends_list() {
    assert_eq!(format_friends_summary(&[]), "Friends: 0 found. League Client did not return any friends.");
}

#[test]
fn friends_reply_may_keep_its_list_under_friends() {
    let value = obj(vec![(
        "friends",
        JsonValue::Array(vec![
            obj(vec![("availability", s(" BUSY ")), ("name", s("  Pal  ")), ("productName", s("VALORANT"))]),
            obj(vec![("availability", s("dnd")), ("name", s("   "))]),
        ]),
    )]);

    let friends = friends_from_value(&value);

    assert_eq!(friends.len(), 1);
    assert_eq!(friends[0].name, "Pal");
    assert_eq!(friends[0].availability, "dnd");
    assert_eq!(friends[0].product, "VALORANT");
}

#[test]
fn friend_words_are_normalized() {
    assert_eq!(normalize_friend_availability(" Online "), "online");
    assert_eq!(normalize_friend_availability(""), "unknown");
    assert_eq!(normalize_friend_availability("Streaming"), "streaming");
    assert_eq!(normalize_friend_product("LoR"), "Runeterra");
    assert_eq!(normalize_friend_product("keystone"), "Riot Client");
    assert_eq!(normalize_friend_product("Other_Game"), "other_game");
}

#[test]
fn ordered_counts_puts_listed_keys_first() {
    let counts = vec![("away".to_string(), 2), ("online".to_string(), 1), ("zzz".to_string(), 4)];

    assert_eq!(ordered_counts(&counts, &["online", "dnd", "away"]), "online 1, away 2, zzz 4");
    assert_eq!(ordered_counts(&counts, &[]), "away 2, online 1, zzz 4");
}

#[test]
fn response_wrapper_preserves_debug_fields() {
    let response = lcu_response_from_value(
        "GET",
        "/lol-test/v1/example",
        "https://127.0.0.1:1234/lol-test/v1/example",
        1234,
        reqwest::StatusCode::OK.as_u16(),
        JsonValue::Object(vec![("ok".to_string(), JsonValue::Bool(true))]),
    );

    assert_eq!(response.method, "GET");
    assert_eq!(response.endpoint, "/lol-test/v1/example");
    assert_eq!(response.port, 1234);
    assert_eq!(response.status, 200);
    assert!(response.ok);
    assert!(matches!(
        &response.body,
        Some(JsonValue::Object(members)) if members.len() == 1 && members[0].0 == "ok" && matches!(members[0].1, JsonValue::Bool(true))
    ));
    assert_eq!(response.text, r#"{"ok":true}"#);
}
