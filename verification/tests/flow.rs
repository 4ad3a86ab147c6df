use ghosty::config_proxy::{
    affinity_from_token, affinity_outcome, config_body_json, response_content_type_for, rewritten_config_body,
    AffinityError, JSON_CONTENT_TYPE, LOCALHOST_DOMAIN,
};
use ghosty::helper::SettingsChange;
use ghosty::json::{JsonNumber, JsonValue};
use ghosty::launch::{install_config_candidates, kill_failure_message};
use ghosty::lcu::{opgg_region_from_locale, riot_id_display};
use ghosty::models::{HealthState, LaunchGame, LogCategory, LogLevel, PresenceStatus, StartupStatus};
use ghosty::presence::rewrite_presence;
use ghosty::state::{AppState, ConnectionError};
use ghosty::xml::{XmlElement, XmlNode};

fn s(text: &str) -> JsonValue {
    JsonValue::Str(text.to_string())
}

fn obj(members: Vec<(&str, JsonValue)>) -> JsonValue {
    JsonValue::Object(members.into_iter().map(|(k, v)| (k.to_string(), v)).collect())
}

fn element(name: &str, children: Vec<XmlNode>) -> XmlElement {
    XmlElement {
        prefix: None,
        namespace: None,
        namespaces: None,
        name: name.to_string(),
        attributes: Vec::new(),
        children,
    }
}

fn text(t: &str) -> XmlNode {
    XmlNode::Text(t.to_string())
}

fn fresh_state() -> AppState {
    AppState::load(StartupStatus::Last, PresenceStatus::Chat, true, false, 2000, String::new())
}

#[test]
fn affinity_from_token_reads_the_affinity_claim() {
    assert_eq!(affinity_from_token("header.eyJhZmZpbml0eSI6Im5hMSJ9.signature"), Ok("na1".to_string()));
}

#[test]
fn affinity_from_token_reports_each_failure() {
    assert_eq!(affinity_from_token("no-dots-here"), Err(AffinityError::NotJwt));
    assert_eq!(affinity_from_token("a.!!!.c"), Err(AffinityError::InvalidBase64));
    assert_eq!(affinity_from_token("a.bm90IGpzb24.c"), Err(AffinityError::InvalidJson));
    assert_eq!(affinity_from_token("a.eyJzdWIiOiJ4In0.c"), Err(AffinityError::MissingAffinity));
    assert_eq!(AffinityError::InvalidJson.message(), "Geo PAS JWT payload is not JSON");
}

#[test]
fn affinity_outcome_logs_the_lookup() {
    let (affinity, level, line) = affinity_outcome(Ok("euw1".to_string()));
    assert_eq!(affinity, Some("euw1".to_string()));
    assert_eq!(level, LogLevel::Info);
    assert_eq!(line, "Using Riot chat affinity: euw1");
    let (affinity, level, line) = affinity_outcome(Err("timeout".to_string()));
    assert_eq!(affinity, None);
    assert_eq!(level, LogLevel::Warn);
    assert_eq!(line, "Unable to resolve Riot chat affinity: timeout");
}

#[test]
fn config_body_json_reads_only_successful_json() {
    assert!(config_body_json(false, b"{\"a\":1}").is_none());
    assert!(config_body_json(true, b"not json").is_none());
    match config_body_json(true, b"{\"a\":1}") {
        Some(JsonValue::Object(members)) => assert_eq!(members.len(), 1),
        other => panic!("unexpected {other:?}"),
    }
}

#[test]
fn rewritten_config_body_points_chat_at_the_local_proxy() {
    let json = config_body_json(true, br#"{"chat.host":"na2.chat.si.riotgames.com","chat.port":5223,"other":true}"#).unwrap();
    let (body, server) = rewritten_config_body(json, 40123, None);
    let server = server.expect("server");
    assert_eq!(server.host, "na2.chat.si.riotgames.com");
    assert_eq!(server.port, 5223);
    assert_eq!(server.affinity, None);
    let text = String::from_utf8(body).unwrap();
    assert_eq!(text, format!(r#"{{"chat.host":"{LOCALHOST_DOMAIN}","chat.port":40123,"other":true}}"#));
}

#[test]
fn rewritten_config_body_leaves_configs_without_chat_server() {
    let json = config_body_json(true, br#"{"keystone.products":{"a":1}}"#).unwrap();
    let (body, server) = rewritten_config_body(json, 40123, None);
    assert!(server.is_none());
    assert_eq!(String::from_utf8(body).unwrap(), r#"{"keystone.products":{"a":1}}"#);
}

#[test]
fn lcu_response_text_is_compact_json() {
    let value = obj(vec![
        ("b", JsonValue::Array(vec![JsonValue::Null, JsonValue::Bool(true)])),
        ("a", JsonValue::Number(JsonNumber::Negative(-3))),
        ("c", s("x\"y")),
    ]);
    let response = ghosty::lcu::lcu_response_from_value("GET", "/x", "u", 1, 200, value);
    assert_eq!(response.text, r#"{"a":-3,"b":[null,true],"c":"x\"y"}"#);
}

#[test]
fn install_config_candidates_follow_the_install_order() {
    let config = obj(vec![
        ("associated_client", obj(vec![("C:/Games/LoL/", s("C:/Riot Games/Riot Client/"))])),
        ("patchlines", obj(vec![("KeystoneFoundationLiveWin", s("D:\\Riot\\Riot Client\\RiotClientServices.exe"))])),
        ("rc_live", s("E:/Riot Client")),
        ("rc_default", s("C:/Riot Games/Riot Client/RiotClientServices.exe")),
        ("rc_beta", JsonValue::Null),
    ]);
    assert_eq!(
        install_config_candidates(&config),
        vec![
            "C:\\Riot Games\\Riot Client\\RiotClientServices.exe".to_string(),
            "E:\\Riot Client\\RiotClientServices.exe".to_string(),
            "D:\\Riot\\Riot Client\\RiotClientServices.exe".to_string(),
            "C:\\Riot Games\\Riot Client\\RiotClientServices.exe".to_string(),
        ]
    );
    assert!(install_config_candidates(&JsonValue::Null).is_empty());
}

#[test]
fn kill_failure_message_sorts_and_dedupes_names() {
    assert_eq!(kill_failure_message(&[]), None);
    let failures = vec!["RiotClientUx.exe".to_string(), "LeagueClient.exe".to_string(), "RiotClientUx.exe".to_string()];
    assert_eq!(
        kill_failure_message(&failures),
        Some("Unable to stop Riot processes: LeagueClient.exe, RiotClientUx.exe".to_string())
    );
}

#[test]
fn opgg_region_from_locale_prefers_region_then_web_region() {
    assert_eq!(opgg_region_from_locale(&obj(vec![("region", s("EUW1")), ("webRegion", s("na"))])), Some("euw".to_string()));
    assert_eq!(opgg_region_from_locale(&obj(vec![("webRegion", s("KR"))])), Some("kr".to_string()));
    assert_eq!(opgg_region_from_locale(&obj(vec![("locale", s("en_US"))])), None);
}

#[test]
fn riot_id_display_joins_name_and_tag() {
    assert_eq!(riot_id_display("Ghosty", "NA1"), "Ghosty#NA1");
}

#[test]
fn helper_changes_apply_to_the_state() {
    let mut state = fresh_state();
    state.apply_helper_change(SettingsChange::Status(PresenceStatus::Mobile));
    assert_eq!(state.status, PresenceStatus::Mobile);
    state.apply_helper_change(SettingsChange::Enabled(false));
    assert!(!state.enabled);
    state.apply_helper_change(SettingsChange::AutoAccept(true));
    assert!(state.auto_accept);
    assert_eq!(state.auto_accept_state, "Watching for ready check");
    let live = state.live();
    assert_eq!(live.settings.status, PresenceStatus::Mobile);
    assert!(!live.settings.enabled);
    assert!(live.helper_friend);
    assert!(state.logs.is_empty());
    state.set_auto_accept_state("Watching: Lobby".to_string());
    assert_eq!(state.auto_accept_state, "Watching: Lobby");
}

#[test]
fn connection_counts_follow_open_and_close() {
    let mut state = fresh_state();
    state.install_runtime(1, 2, None, LaunchGame::Lol, false);
    state.connection_opened();
    assert_eq!(state.health.active_connections, 1);
    assert_eq!(state.health.tls_connected.state, HealthState::Active);
    state.connection_closed();
    assert_eq!(state.runtime.as_ref().unwrap().active_connections, 0);
    assert_eq!(state.health.tls_connected.state, HealthState::Ready);
    assert_eq!(state.health.tls_connected.detail, "Waiting for Riot Client connection");
}

#[test]
fn connection_failure_counts_a_reconnect() {
    let mut state = fresh_state();
    state.install_runtime(1, 2, None, LaunchGame::Lol, false);
    state.connection_failed(true, &ConnectionError::Failed("reset".to_string()));
    assert_eq!(state.runtime.as_ref().unwrap().reconnect_attempts, 1);
    assert_eq!(state.health.reconnect_attempts, 1);
    assert_eq!(state.health.xmpp_active.state, HealthState::Warning);
    let last = state.logs.last().unwrap();
    assert_eq!(last.category, LogCategory::Chat);
    assert_eq!(last.level, LogLevel::Warn);
    assert_eq!(last.message, "Chat proxy connection closed: reset");
    state.connection_failed(true, &ConnectionError::CleanClose);
    assert_eq!(state.runtime.as_ref().unwrap().reconnect_attempts, 1);
    assert_eq!(state.logs.last().unwrap().message, "Chat proxy connection closed cleanly");
}

#[test]
fn rewritten_presence_shows_the_target_status() {
    let presence = element(
        "presence",
        vec![
            XmlNode::Element(element("show", vec![text("chat")])),
            XmlNode::Element(element("status", vec![text("Hi")])),
            XmlNode::Element(element(
                "games",
                vec![XmlNode::Element(element(
                    "league_of_legends",
                    vec![XmlNode::Element(element("st", vec![text("chat")]))],
                ))],
            )),
        ],
    );
    let mut version = None;
    let rewritten = rewrite_presence(presence, PresenceStatus::Mobile, &mut version);
    let show = rewritten
        .children
        .iter()
        .find_map(|n| match n {
            XmlNode::Element(e) if e.name == "show" => Some(e),
            _ => None,
        })
        .unwrap();
    assert_eq!(show.children.len(), 1);
    assert!(matches!(&show.children[0], XmlNode::Text(t) if t == "mobile"));
    assert!(!rewritten.children.iter().any(|n| matches!(n, XmlNode::Element(e) if e.name == "status")));
}

#[test]
fn helper_lookup_commands_become_lookup_actions() {
    use_lookup_case();
}

fn use_lookup_case() {
    let server = ghosty::config_proxy::PatchedChatServer {
        host: "na2.chat.si.riotgames.com".to_string(),
        port: 5223,
        affinity: None,
    };
    let mut session = ghosty::session::ChatSession::new(&server, true);
    let jid = session.helper_jid.clone();
    let live = fresh_state().live();
    let command = format!("<message to='{jid}'><body>opgg</body></message>");
    let actions = session.on_client_data(command.into_bytes(), &live).unwrap();
    assert!(actions
        .iter()
        .any(|a| matches!(a, ghosty::session::Action::Lookup(ghosty::helper::LcuLookup::SummonerLink))));
}

#[test]
fn response_content_type_keeps_upstream_unless_rewritten_or_blank() {
    assert_eq!(response_content_type_for(Some("text/plain"), false), "text/plain");
    assert_eq!(response_content_type_for(Some("text/plain"), true), JSON_CONTENT_TYPE);
    assert_eq!(response_content_type_for(Some("   "), false), JSON_CONTENT_TYPE);
    assert_eq!(response_content_type_for(None, false), JSON_CONTENT_TYPE);
}
