use ghosty::auto_accept::{
    accept_report, delay_step, discord_auto_accept_message, discord_webhook_target, AcceptOutcome,
    AutoAcceptMonitor,
};
use ghosty::config_proxy::{affinity_source, head_failure_answer, AffinitySource, ConfigError, HeadFailure, PatchedChatServer};
use ghosty::helper::HelperSettings;
use ghosty::json::JsonValue;
use ghosty::lcu::{credentials_response_needs_refresh, gameflow_phase_of, lcu_response_from_value};
use ghosty::models::{HealthState, LaunchGame, LogLevel, PresenceStatus, StartupStatus};
use ghosty::session::{Action, ChatSession, Live};
use ghosty::state::AppState;

const TEST_HELPER_JID: &str = "41c322a1-b328-495b-a004-5ccd3e45eae8@na2.pvp.net";

fn server() -> PatchedChatServer {
    PatchedChatServer { host: "na2.chat.si.riotgames.com".to_string(), port: 5223, affinity: None }
}

fn live(helper_friend: bool, safe_mode: bool) -> Live {
    Live {
        helper_friend,
        safe_mode,
        connect_to_muc: true,
        settings: HelperSettings {
            enabled: true,
            status: PresenceStatus::Offline,
            auto_accept: false,
            auto_accept_state: "Disabled".to_string(),
        },
    }
}

fn sent_to_server(actions: &[Action]) -> Vec<u8> {
    actions
        .iter()
        .filter_map(|a| match a {
            Action::ToServer(_, b) => Some(b.clone()),
            _ => None,
        })
        .flatten()
        .collect()
}

fn sent_to_client(actions: &[Action]) -> Vec<u8> {
    actions
        .iter()
        .filter_map(|a| match a {
            Action::ToClient(_, b) => Some(b.clone()),
            _ => None,
        })
        .flatten()
        .collect()
}

#[test]
fn session_derives_helper_jid_from_server() {
    let session = ChatSession::new(&server(), true);

    assert_eq!(session.helper_jid, TEST_HELPER_JID);
    assert!(!session.sent_helper_roster);
}

#[test]
fn session_forwards_plain_client_chat() {
    let mut session = ChatSession::new(&server(), false);

    let actions = session.on_client_data(b"<message><body>hi</body></message>".to_vec(), &live(false, false)).unwrap();

    assert_eq!(sent_to_server(&actions), b"<message><body>hi</body></message>");
    assert!(sent_to_client(&actions).is_empty());
    assert!(session.logged_client_flow);
}

#[test]
fn session_masks_client_presence() {
    let mut session = ChatSession::new(&server(), false);
    session.presence_buffer.initial_presence_forwarded = true;

    let actions = session
        .on_client_data(b"<presence><show>chat</show></presence>".to_vec(), &live(false, false))
        .unwrap();
    let sent = String::from_utf8(sent_to_server(&actions)).unwrap();

    assert!(sent.contains("<show>offline</show>"));
    assert!(session.logged_client_presence);
}

#[test]
fn session_in_safe_mode_forwards_presence_unchanged() {
    let mut session = ChatSession::new(&server(), false);

    let actions = session
        .on_client_data(b"<presence><show>chat</show></presence>".to_vec(), &live(false, true))
        .unwrap();

    assert_eq!(sent_to_server(&actions), b"<presence><show>chat</show></presence>");
}

#[test]
fn session_answers_helper_commands_instead_of_forwarding_them() {
    let mut session = ChatSession::new(&server(), true);
    let command = format!("<message to='{TEST_HELPER_JID}/RC-Ghosty'><body>online</body></message>");

    let actions = session.on_client_data(command.into_bytes(), &live(true, false)).unwrap();

    assert!(sent_to_server(&actions).is_empty());
    assert!(actions.iter().any(|a| matches!(a, Action::Change(_))));
    let reply = String::from_utf8(sent_to_client(&actions)).unwrap();
    assert!(reply.contains("You are now appearing online."));
}

#[test]
fn session_adds_helper_after_roster_and_replay() {
    let mut session = ChatSession::new(&server(), true);
    let l = live(true, false);

    let actions = session.on_server_data(
        b"<iq type='result'><query xmlns='jabber:iq:riotgames:roster'><item jid='friend@na1.pvp.net'/></query></iq>"
            .to_vec(),
        &l,
    );
    assert!(session.startup_roster_ready);
    assert!(!session.sent_helper_roster);
    assert!(String::from_utf8(sent_to_client(&actions)).unwrap().contains("friend@na1.pvp.net"));

    let actions = session.on_server_data(b"<presence from='friend@na2.pvp.net/RC'><show>chat</show></presence>".to_vec(), &l);
    let forwarded = String::from_utf8(sent_to_client(&actions)).unwrap();
    assert!(forwarded.contains("friend@na1.pvp.net/RC"));
    assert_eq!(session.startup_presence_replay.stanza_count(), 1);

    session.startup_presence_replay.first_seen = Some(0);
    session.startup_presence_replay.last_seen = Some(0);
    let idle = session.on_idle();
    assert!(String::from_utf8(sent_to_client(&idle)).unwrap().contains("<presence"));
    assert!(session.startup_presence_replay.replayed());

    let actions = session.on_server_data(b"<iq id='ping'/>".to_vec(), &l);
    let to_client = String::from_utf8(sent_to_client(&actions)).unwrap();
    assert!(session.sent_helper_roster && session.sent_helper_presence && session.sent_helper_intro);
    assert!(to_client.contains("type='set'"));
    assert!(to_client.contains(TEST_HELPER_JID));
    assert!(to_client.contains("You are appearing offline."));
}

#[test]
fn session_flushes_buffers_when_a_side_closes() {
    let mut session = ChatSession::new(&server(), false);
    let mut bytes = "olé".as_bytes().to_vec();
    bytes.pop();
    session.on_client_data(bytes, &live(false, false)).unwrap();

    let actions = session.on_client_closed();

    assert_eq!(sent_to_server(&actions), vec![0xc3]);
}

#[test]
fn auto_accept_monitor_accepts_each_ready_check_once() {
    let mut monitor = AutoAcceptMonitor::new();

    let plan = monitor.step(true, Some("Lobby"), 2000);
    assert_eq!(plan.state.as_deref(), Some("Watching: Lobby"));
    assert_eq!(plan.sleep_ms, 750);

    let plan = monitor.step(true, Some("ReadyCheck"), 2000);
    assert_eq!(plan.state.as_deref(), Some("Ready check found; accepting in 2000ms"));
    assert_eq!(plan.log.as_deref(), Some("Auto accept detected ready check; accepting in 2000ms"));
    assert_eq!(plan.accept_after_ms, Some(2000));
    assert_eq!(plan.sleep_ms, 250);

    let plan = monitor.step(true, Some("ReadyCheck"), 2000);
    assert!(plan.accept_after_ms.is_none());
    assert!(plan.state.is_none());

    let plan = monitor.step(true, None, 2000);
    assert_eq!(plan.state.as_deref(), Some("Waiting for League Client"));
    assert_eq!(plan.sleep_ms, 2000);

    let plan = monitor.step(false, Some("ReadyCheck"), 2000);
    assert_eq!(plan.state.as_deref(), Some("Disabled"));
    assert!(!monitor.ready_check_active);
}

#[test]
fn accept_reports_and_discord_messages() {
    let report = accept_report(&AcceptOutcome::Status(500));
    assert_eq!(report.state, "Accept returned HTTP 500");
    assert_eq!(report.level, LogLevel::Warn);
    assert!(!report.notify);
    assert!(accept_report(&AcceptOutcome::Accepted).notify);
    assert_eq!(accept_report(&AcceptOutcome::Failed("timeout".to_string())).log, "Auto accept failed: timeout");
    assert_eq!(discord_webhook_target("   "), None);
    assert_eq!(discord_webhook_target(" https://x.test ").as_deref(), Some("https://x.test"));
    assert_eq!(discord_auto_accept_message(Some("Ghosty#NA1")), "Ghosty#NA1 has auto accepted a game");
    assert_eq!(discord_auto_accept_message(None), "Ghosty has auto accepted a game");
    assert_eq!(delay_step(250), 100);
    assert_eq!(delay_step(40), 40);
}

#[test]
fn config_head_failures_get_plain_answers() {
    let answer = head_failure_answer(&HeadFailure::TooLarge);
    assert_eq!(answer.status, 431);
    assert!(answer.log.is_none());
    let answer = head_failure_answer(&HeadFailure::Rejected(ConfigError::EmptyRequest));
    assert_eq!(answer.status, 400);
    assert_eq!(answer.log.as_deref(), Some("Rejected config proxy request: Empty HTTP request"));
}

#[test]
fn affinity_is_looked_up_only_when_enabled() {
    let enabled = JsonValue::Object(vec![("chat.affinity.enabled".to_string(), JsonValue::Bool(true))]);
    let auth = "Bearer x".to_string();

    assert!(matches!(affinity_source(&enabled, Some(&auth)), AffinitySource::Lookup(ref a) if a == "Bearer x"));
    assert!(matches!(affinity_source(&enabled, None), AffinitySource::MissingAuthorization));
    assert!(matches!(affinity_source(&JsonValue::Object(Vec::new()), Some(&auth)), AffinitySource::NotAsked));
}

#[test]
fn lcu_responses_record_status_and_text() {
    let response = lcu_response_from_value(
        "GET",
        "/lol-test/v1/example",
        "https://127.0.0.1:1234/lol-test/v1/example",
        1234,
        200,
        JsonValue::Str("ReadyCheck".to_string()),
    );

    assert!(response.ok);
    assert_eq!(response.port, 1234);
    assert_eq!(response.text, "\"ReadyCheck\"");
    assert_eq!(gameflow_phase_of(&response), "ReadyCheck");
    assert!(!credentials_response_needs_refresh(&response));
    let null = lcu_response_from_value("GET", "/x", "u", 1, 204, JsonValue::Null);
    assert_eq!(null.text, "");
}

#[test]
fn runtime_events_update_health_and_log() {
    let mut state = AppState::load(StartupStatus::Last, PresenceStatus::Chat, true, false, 2_000, String::new());
    state.install_runtime(1111, 2222, None, LaunchGame::Lol, false);
    state.note_config_proxy_ready(2222);
    state.record_riot_chat_server(server());
    state.connection_opened();
    state.chat_traffic_flowing();

    assert_eq!(state.health.config_proxy.detail, "127.0.0.1:2222");
    assert_eq!(state.health.chat_server.detail, "na2.chat.si.riotgames.com:5223");
    assert_eq!(state.health.tls_connected.state, HealthState::Active);
    assert_eq!(state.health.xmpp_active.state, HealthState::Active);
    assert_eq!(state.health.active_connections, 1);
    assert_eq!(state.logs.last().unwrap().message, "Original Riot chat server is na2.chat.si.riotgames.com:5223");
    assert!(state.stop());
    assert!(state.runtime.is_none());
}
