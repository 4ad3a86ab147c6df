use base64::Engine;
use ghosty::models::PresenceStatus;
use ghosty::presence::{
    contains_unaddressed_presence_fragment, escape_xml, helper_jid_for_chat_identity, helper_presence,
    helper_roster_item, helper_roster_push, insert_helper_friend, rewrite_presence_fragment,
    rewrite_unaddressed_presence_only_fragment, roster_item_count, PresenceRewrite,
};

const TEST_HELPER_JID: &str = "41c322a1-b328-495b-a004-5ccd3e45eae8@na2.pvp.net";

#[test]
fn derives_helper_jid_from_chat_identity() {
    assert_eq!(helper_jid_for_chat_identity("na2.chat.si.riotgames.com", None), TEST_HELPER_JID);
    assert_eq!(
        helper_jid_for_chat_identity("na2.chat.si.riotgames.com", Some("na1")),
        "41c322a1-b328-495b-a004-5ccd3e45eae8@na1.pvp.net"
    );
    assert_eq!(helper_jid_for_chat_identity("", None), "41c322a1-b328-495b-a004-5ccd3e45eae8@eu1.pvp.net");
}

#[test]
fn appends_helper_friend_to_riot_roster() {
    let roster_open = "<query xmlns='jabber:iq:riotgames:roster'>";
    let input = format!("<iq type='result'>{}<item jid='friend@na2.pvp.net'/></query></iq>", roster_open);

    let updated = insert_helper_friend(&input, TEST_HELPER_JID).expect("helper friend should be inserted");

    let helper_at = updated.find(TEST_HELPER_JID).expect("helper jid should be present");
    let friend_at = updated.find("friend@na2.pvp.net").expect("original friend should remain");
    assert!(friend_at < helper_at);
    assert!(updated.contains("Ghosty Active!"));
}

#[test]
fn counts_roster_items_only_inside_roster_payloads() {
    assert_eq!(
        roster_item_count("<iq><query xmlns='jabber:iq:riotgames:roster'><item jid='a'/><item jid='b'/></query></iq>"),
        2
    );
    assert_eq!(roster_item_count("<message><item jid='not-roster'/></message>"), 0);
}

#[test]
fn helper_roster_item_uses_client_visible_identity_fields() {
    let item = helper_roster_item(TEST_HELPER_JID);

    assert!(item.contains("name='&#9;Ghosty Active!'"));
    assert!(item.contains("<group priority='9999'>Ghosty</group>"));
    assert!(item.contains("<state>online</state>"));
    assert!(item.contains("<lol name='&#9;Ghosty Active!'/>"));
    assert!(item.contains("<platforms><riot name='&#9;Ghosty Active' tagline='...'/></platforms>"));
}

#[test]
fn helper_roster_push_wraps_helper_item_without_replacing_initial_roster() {
    let push = helper_roster_push(TEST_HELPER_JID);

    assert!(push.contains("type='set'"));
    assert!(push.contains("jabber:iq:riotgames:roster"));
    assert!(push.contains(TEST_HELPER_JID));
    assert!(push.contains("Ghosty Active!"));
}

#[test]
fn inserts_helper_friend_after_roster_query_with_double_quotes_and_extra_attributes() {
    let input = "<iq type='result'><query ver='2' xmlns=\"jabber:iq:riotgames:roster\"><item jid='friend@na2.pvp.net'/></query></iq>";

    let updated = insert_helper_friend(input, TEST_HELPER_JID).expect("helper friend should be inserted");

    let helper_at = updated.find(TEST_HELPER_JID).expect("helper jid should be present");
    let friend_at = updated.find("friend@na2.pvp.net").expect("original friend should remain");
    assert!(friend_at < helper_at);
    assert!(updated.contains("Ghosty Active!"));
}

#[test]
fn ignores_unrelated_query_before_roster_query() {
    let input = "<iq><query xmlns='jabber:iq:riotgames:auth'/><query xmlns=\"jabber:iq:riotgames:roster\"><item jid='friend@na2.pvp.net'/></query></iq>";

    let updated = insert_helper_friend(input, TEST_HELPER_JID).expect("helper friend should be inserted");

    assert!(updated.contains("<query xmlns='jabber:iq:riotgames:auth'/>"));
    assert!(updated.contains(TEST_HELPER_JID));
}

#[test]
fn does_not_insert_helper_friend_twice() {
    let input = format!(
        "<iq type='result'><query xmlns='jabber:iq:riotgames:roster'>{}</query></iq>",
        helper_roster_item(TEST_HELPER_JID)
    );

    assert!(insert_helper_friend(&input, TEST_HELPER_JID).is_none());
}

#[test]
fn detects_unaddressed_presence_in_mixed_fragments() {
    assert!(contains_unaddressed_presence_fragment("<message/><presence><show>chat</show></presence>"));
    assert!(!contains_unaddressed_presence_fragment(
        "<presence to='room@conference.pvp.net'><show>chat</show></presence>"
    ));
    assert!(!contains_unaddressed_presence_fragment("<presence><show>chat"));
}

#[test]
fn rewrites_only_unaddressed_presence_for_warmup_followup() {
    let mut valorant_version = None;
    let rewritten = rewrite_unaddressed_presence_only_fragment(
        "<iq type='get' id='1'/><presence id='presence_5'><show>chat</show><status>hello</status><games><keystone><st>chat</st></keystone></games></presence><presence to='room@conference.pvp.net'><show>chat</show></presence>",
        PresenceStatus::Mobile,
        &mut valorant_version,
    )
    .expect("rewrite should not fail")
    .expect("presence should be rewritten");
    let rewritten = String::from_utf8(rewritten).expect("presence should stay utf8");

    assert!(rewritten.contains("<presence id=\"presence_5\">"));
    assert!(rewritten.contains("<show>mobile</show>"));
    assert!(!rewritten.contains("<iq"));
    assert!(!rewritten.contains("conference.pvp.net"));
    assert!(!rewritten.contains("<status>hello</status>"));
}

#[test]
fn helper_friend_is_inserted_into_roster_results_without_roster_set_push() {
    let input = "<iq type='result' id='roster-1'><query xmlns='jabber:iq:riotgames:roster'><item jid='friend@na2.pvp.net'/></query></iq>";

    let updated = insert_helper_friend(input, TEST_HELPER_JID).expect("helper friend should be inserted");

    assert!(updated.contains("type='result'"));
    assert!(!updated.contains("type='set'"));
    assert!(updated.contains(TEST_HELPER_JID));
    assert!(updated.contains("friend@na2.pvp.net"));
    assert!(
        updated.find("friend@na2.pvp.net").expect("friend remains")
            < updated.find(TEST_HELPER_JID).expect("helper inserted")
    );
}

fn payload_after<'a>(presence: &'a str, tag: &str) -> &'a str {
    presence
        .split(tag)
        .nth(1)
        .and_then(|game| game.split("<p>").nth(1))
        .and_then(|payload| payload.split("</p>").next())
        .expect("payload should be present")
}

#[test]
fn helper_presence_includes_game_payloads_and_valorant_version() {
    let presence = helper_presence(TEST_HELPER_JID, Some("release-10.11"));

    assert!(presence.contains("<league_of_legends>"));
    assert!(presence.contains("<valorant>"));
    assert!(presence.contains("<bacon>"));

    let encoded = payload_after(&presence, "<league_of_legends>");
    let decoded = String::from_utf8(base64::engine::general_purpose::STANDARD.decode(encoded).ok().expect("League payload should be base64"))
        .expect("League payload should be utf8");
    let league_payload: String = serde_json::from_str(&decoded).expect("League payload should be a JSON string");

    assert!(league_payload.contains("\"profileIcon\": \"3151\""));
    assert!(league_payload.contains("\"gameStatus\": \"outOfGame\""));

    let encoded = payload_after(&presence, "<valorant>");
    let decoded = String::from_utf8(base64::engine::general_purpose::STANDARD.decode(encoded).ok().expect("valorant payload should be base64"))
        .expect("valorant payload should be utf8");

    assert!(decoded.contains("\"partyClientVersion\": \"release-10.11\""));
    assert!(decoded.contains("\"customGameName\": \"Ghosty Active!\""));
}

fn forwarded(result: Option<PresenceRewrite>) -> String {
    match result.expect("presence should be handled") {
        PresenceRewrite::Forward(text) => text,
        PresenceRewrite::Drop => panic!("presence should be forwarded"),
    }
}

#[test]
fn rewrites_presence_inside_mixed_xml_fragments() {
    let mut valorant_version = None;
    let rewritten = forwarded(
        rewrite_presence_fragment(
            "<message id='1'/><presence><show>chat</show></presence>",
            true,
            PresenceStatus::Offline,
            false,
            &mut valorant_version,
        )
        .expect("rewrite should not fail"),
    );

    assert!(rewritten.contains("<message"));
    assert!(rewritten.contains("<show>offline</show>"));
}

#[test]
fn rewrite_presence_preserves_text_between_mixed_stanzas() {
    let mut valorant_version = None;
    let rewritten = forwarded(
        rewrite_presence_fragment(
            "<message id='1'/>\n<presence><show>chat</show></presence>\n<iq id='2'/>",
            true,
            PresenceStatus::Offline,
            true,
            &mut valorant_version,
        )
        .expect("rewrite should not fail"),
    );

    assert!(rewritten.contains("<message"));
    let first_newline = rewritten.find('\n').expect("first newline should remain");
    let second_newline = rewritten.rfind('\n').expect("second newline should remain");

    assert!(rewritten[..first_newline].contains("<message"));
    assert!(rewritten[first_newline + 1..].starts_with("<presence"));
    assert!(rewritten[..second_newline].ends_with("</presence>"));
    assert!(rewritten[second_newline + 1..].starts_with("<iq"));
    assert!(rewritten.contains("<show>offline</show>"));
}

#[test]
fn drops_addressed_presence_when_muc_passthrough_is_disabled() {
    let mut valorant_version = None;
    let rewritten = rewrite_presence_fragment(
        "<presence to='room@conference.pvp.net'><show>chat</show></presence>",
        true,
        PresenceStatus::Offline,
        false,
        &mut valorant_version,
    )
    .expect("rewrite should not fail")
    .expect("addressed presence should be handled");

    assert!(matches!(rewritten, PresenceRewrite::Drop));
}

#[test]
fn preserves_addressed_presence_when_muc_passthrough_is_enabled() {
    let mut valorant_version = None;
    let rewritten = forwarded(
        rewrite_presence_fragment(
            "<presence to='room@conference.pvp.net'><games><league_of_legends><st>chat</st></league_of_legends></games><show>chat</show><status>hello</status></presence>",
            true,
            PresenceStatus::Offline,
            true,
            &mut valorant_version,
        )
        .expect("rewrite should not fail"),
    );

    assert!(rewritten.contains("to=\"room@conference.pvp.net\""));
    assert!(rewritten.contains("<show>chat</show>"));
    assert!(rewritten.contains("<status>hello</status>"));
    assert!(rewritten.contains("<league_of_legends>"));
    assert!(!rewritten.contains("<show>offline</show>"));
}

#[test]
fn rewrites_presence_to_offline_without_dropping_stream() {
    let mut valorant_version = None;
    let rewritten = forwarded(
        rewrite_presence_fragment(
            "<presence><games><league_of_legends><st>chat</st></league_of_legends></games><show>chat</show><status>hello</status></presence>",
            true,
            PresenceStatus::Offline,
            false,
            &mut valorant_version,
        )
        .expect("rewrite should succeed"),
    );

    assert!(rewritten.contains("<show>offline</show>"));
    assert!(rewritten.contains("<league_of_legends>"));
    assert!(rewritten.contains("<st>offline</st>"));
    assert!(!rewritten.contains("<status>"));
}

#[test]
fn offline_presence_preserves_league_product_node_without_rich_payload() {
    let mut valorant_version = None;
    let rewritten = forwarded(
        rewrite_presence_fragment(
            "<presence><games><league_of_legends><st>chat</st><s.p>league_of_legends</s.p><s.c>live</s.c><p>{}</p><m>secret</m></league_of_legends></games><show>chat</show><status>hello</status></presence>",
            true,
            PresenceStatus::Offline,
            false,
            &mut valorant_version,
        )
        .expect("rewrite should succeed"),
    );

    assert!(rewritten.contains("<league_of_legends>"));
    assert!(rewritten.contains("<st>offline</st>"));
    assert!(rewritten.contains("<s.p>league_of_legends</s.p>"));
    assert!(rewritten.contains("<s.c>live</s.c>"));
    assert!(!rewritten.contains("<p>"));
    assert!(!rewritten.contains("<m>"));
    assert!(!rewritten.contains("<status>"));
}

#[test]
fn masking_off_leaves_presence_alone() {
    let mut valorant_version = None;
    let result = rewrite_presence_fragment(
        "<presence><show>chat</show></presence>",
        false,
        PresenceStatus::Offline,
        false,
        &mut valorant_version,
    )
    .expect("rewrite should not fail");

    assert!(result.is_none());
}

#[test]
fn escape_xml_escapes_markup_characters() {
    assert_eq!(escape_xml("a<b>&\"c'"), "a&lt;b&gt;&amp;&quot;c&apos;");
}
