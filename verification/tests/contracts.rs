use ghosty::auto_accept::{AcceptWait, WaitStep};
use ghosty::config_proxy::{request_path, PatchedChatServer};
use ghosty::xml::XmlNode;
use ghosty::helper::HelperSettings;
use ghosty::json::{JsonNumber, JsonValue};
use ghosty::launch::{
    build_launch_args, install_config_candidates_from_bytes, parse_launch_args, validate_launch_params, LaunchError,
};
use ghosty::lcu::lcu_error_response_from_text;
use ghosty::models::{LaunchGame, PresenceStatus, StartupStatus};
use ghosty::persistence::{read_discord_webhook_url, write_discord_webhook_url};
use ghosty::session::{Action, ChatSession, Live};
use ghosty::state::{preflight_checks, AppState, SettingUpdate, StartError, StartOptions};
use ghosty::stream::{Utf8Chunk, Utf8StreamBuffer};

fn chat_server() -> PatchedChatServer {
    PatchedChatServer { host: "na2.chat.si.riotgames.com".to_string(), port: 5223, affinity: None }
}

fn live_settings(helper_friend: bool, safe_mode: bool) -> Live {
    Live {
        helper_friend,
        safe_mode,
        connect_to_muc: true,
        settings: HelperSettings {
            enabled: true,
            status: PresenceStatus::Offline,
            auto_accept: false,
            auto_accept_state: "Disabled".to_string(),
        },
    }
}

fn bytes_to_server(actions: &[Action]) -> Vec<u8> {
    actions
        .iter()
        .filter_map(|a| match a {
            Action::ToServer(_, b) => Some(b.clone()),
            _ => None,
        })
        .flatten()
        .collect()
}

#[test]
fn riot_client_alone_launches_with_a_blank_patchline() {
    assert!(validate_launch_params(LaunchGame::RiotClient, "", None, None).is_ok());
    assert_eq!(
        build_launch_args(49232, LaunchGame::RiotClient, "", None, None).expect("launch args should build"),
        vec!["--client-config-url=http://127.0.0.1:49232".to_string()]
    );
    assert_eq!(build_launch_args(49232, LaunchGame::Lol, " ", None, None), Err(LaunchError::EmptyPatchline));
}

#[test]
fn install_candidates_come_from_the_file_bytes() {
    let bytes = br#"{"rc_live":"E:/Riot Client","rc_default":"C:/Riot Games/Riot Client"}"#;
    assert_eq!(
        install_config_candidates_from_bytes(bytes),
        vec![
            "C:\\Riot Games\\Riot Client\\RiotClientServices.exe".to_string(),
            "E:\\Riot Client\\RiotClientServices.exe".to_string(),
        ]
    );
    assert!(install_config_candidates_from_bytes(b"not json").is_empty());
}

#[test]
fn lcu_error_text_is_read_as_json_where_it_reads() {
    let response =
        lcu_error_response_from_text("GET", "/x", "https://127.0.0.1:1/x", 1, 404, r#"{"message":"nope"}"#.to_string());
    assert!(!response.ok);
    assert_eq!(response.status, 404);
    assert_eq!(response.text, r#"{"message":"nope"}"#);
    match response.body {
        Some(JsonValue::Object(members)) => {
            assert_eq!(members.len(), 1);
            assert_eq!(members[0].0, "message");
            assert!(matches!(&members[0].1, JsonValue::Str(s) if s == "nope"));
        },
        other => panic!("unexpected body {other:?}"),
    }
    let plain = lcu_error_response_from_text("GET", "/x", "u", 1, 500, "oops".to_string());
    assert!(plain.body.is_none());
    assert_eq!(plain.text, "oops");
}

#[test]
fn json_bytes_read_and_write_back() {
    let value = JsonValue::from_json_bytes(br#"[1,-2,"a"]"#).expect("json should read");
    match &value {
        JsonValue::Array(items) => {
            assert!(matches!(items[0], JsonValue::Number(JsonNumber::Unsigned(1))));
            assert!(matches!(items[1], JsonValue::Number(JsonNumber::Negative(-2))));
        },
        other => panic!("unexpected value {other:?}"),
    }
    assert_eq!(value.to_json_bytes(), br#"[1,-2,"a"]"#.to_vec());
    assert!(JsonValue::from_json_bytes(b"{").is_none());
}

#[test]
fn preflight_has_five_checks_in_order() {
    let checks = preflight_checks(
        Some("C:\\Riot Games\\Riot Client\\RiotClientServices.exe".to_string()),
        true,
        None,
        true,
        Ok(vec!["RiotClientServices".to_string(), "LeagueClient".to_string()]),
    );
    let labels: Vec<&str> = checks.iter().map(|c| c.label.as_str()).collect();
    assert_eq!(labels, vec!["Riot Client", "Localhost DNS", "Proxy Certificate", "Local Ports", "Riot Processes"]);
    let oks: Vec<bool> = checks.iter().map(|c| c.ok).collect();
    assert_eq!(oks, vec![true, true, false, true, false]);
    assert_eq!(
        checks[4].detail,
        "Riot is already running (RiotClientServices, LeagueClient); use Clean Restart before launching"
    );
}

#[test]
fn safe_mode_client_data_never_fails() {
    let mut session = ChatSession::new(&chat_server(), false);
    let actions = session
        .on_client_data(b"<presence><show>chat</show></presence><junk".to_vec(), &live_settings(false, true))
        .expect("safe mode forwards without writing presence");
    assert_eq!(bytes_to_server(&actions), b"<presence><show>chat</show></presence><junk");
}

#[test]
fn utf8_reads_then_flush_give_back_every_byte() {
    let input = "héllo wörld".as_bytes().to_vec();
    let mut buffer = Utf8StreamBuffer::new();
    let mut out = Vec::new();
    for piece in [&input[..2], &input[2..3], &input[3..9], &input[9..]] {
        match buffer.push(piece.to_vec()) {
            Utf8Chunk::Text { bytes, .. } => out.extend(bytes),
            Utf8Chunk::Binary(bytes) => out.extend(bytes),
            Utf8Chunk::Pending => {},
        }
    }
    out.extend(buffer.flush());
    assert_eq!(out, input);
}

#[test]
fn stored_webhook_url_reads_back_trimmed() {
    let stored = write_discord_webhook_url("  https://discord.com/api/webhooks/1/abc \n");
    assert_eq!(stored.file, "discordWebhookUrl");
    let text = String::from_utf8(stored.bytes).unwrap();
    assert_eq!(read_discord_webhook_url(Some(text.as_str())), "https://discord.com/api/webhooks/1/abc");
}

#[test]
fn quote_free_params_split_on_whitespace() {
    let text = "  --one\t--two=x \n --three ";
    assert_eq!(parse_launch_args(text).expect("args should parse"), text.split_whitespace().collect::<Vec<_>>());
}

#[test]
fn idle_session_without_replay_does_nothing() {
    let mut session = ChatSession::new(&chat_server(), true);
    assert!(session.on_idle().is_empty());
    assert!(!session.startup_presence_replay.replayed);
}

#[test]
fn ready_check_is_accepted_once_while_it_lasts() {
    let mut monitor = ghosty::auto_accept::AutoAcceptMonitor::new();
    let first = monitor.step(true, Some("ReadyCheck"), 1500);
    assert_eq!(first.accept_after_ms, Some(1500));
    assert!(monitor.step(true, Some("ReadyCheck"), 1500).accept_after_ms.is_none());
    assert!(monitor.step(true, Some("Lobby"), 1500).accept_after_ms.is_none());
    assert_eq!(monitor.step(true, Some("ReadyCheck"), 1500).accept_after_ms, Some(1500));
    assert!(monitor.step(false, Some("ReadyCheck"), 1500).accept_after_ms.is_none());
    assert!(!monitor.ready_check_active);
}

#[test]
fn request_line_accepted_only_for_config_paths() {
    assert_eq!(request_path("get /api/v1/config/public?x=1 HTTP/1.1").unwrap(), "/api/v1/config/public?x=1");
    assert!(request_path("GET /api/v1/config/other HTTP/1.1").is_err());
    assert!(request_path("POST /api/v1/config/player HTTP/1.1").is_err());
}

fn xml(name: &str, attributes: Vec<(&str, &str)>, children: Vec<XmlNode>) -> ghosty::xml::XmlElement {
    ghosty::xml::XmlElement {
        prefix: None,
        namespace: None,
        namespaces: None,
        name: name.to_string(),
        attributes: attributes.into_iter().map(|(k, v)| (k.to_string(), v.to_string())).collect(),
        children,
    }
}

fn loaded_state() -> AppState {
    AppState::load(StartupStatus::Last, PresenceStatus::Chat, true, false, 2000, String::new())
}

#[test]
fn stored_setting_changes_the_state_and_failed_store_changes_nothing() {
    let mut state = loaded_state();
    let update = SettingUpdate::AutoAcceptDelayMs(99_999);
    let stored = update.stored_setting();
    assert_eq!(stored.file, "autoAcceptDelayMs");
    assert_eq!(stored.bytes, b"10000".to_vec());
    assert_eq!(state.apply_stored(update, Ok(())), Ok(()));
    assert_eq!(state.auto_accept_delay_ms, 10_000);
    assert_eq!(state.logs.last().map(|l| l.message.clone()), Some("Auto accept delay set to 10000ms".to_string()));

    let logs_before = state.logs.len();
    let refused = state.apply_stored(SettingUpdate::HelperFriend(false), Err("disk full".to_string()));
    assert_eq!(refused, Err("disk full".to_string()));
    assert!(state.helper_friend);
    assert_eq!(state.logs.len(), logs_before);
}

#[test]
fn accept_wait_sleeps_the_whole_delay_then_accepts() {
    let mut wait = AcceptWait::new(250);
    let mut slept = Vec::new();
    loop {
        match wait.step(true) {
            WaitStep::Sleep(ms) => slept.push(ms),
            WaitStep::Accept => break,
            WaitStep::Cancel => panic!("auto accept stayed on"),
        }
    }
    assert_eq!(slept, vec![100, 100, 50]);
    let mut off = AcceptWait::new(250);
    assert!(matches!(off.step(true), WaitStep::Sleep(100)));
    assert!(matches!(off.step(false), WaitStep::Cancel));
}

#[test]
fn parsed_fragment_functions_read_the_root() {
    let jid = "helper@na2.pvp.net";
    let root = xml(
        "xml",
        vec![],
        vec![
            XmlNode::Element(xml("presence", vec![("to", "room@muc")], vec![])),
            XmlNode::Element(xml(
                "message",
                vec![("to", jid)],
                vec![XmlNode::Element(xml("body", vec![], vec![XmlNode::Text("online".to_string())]))],
            )),
            XmlNode::Text("tail".to_string()),
        ],
    );
    assert!(!ghosty::presence::has_unaddressed_presence_in(&root));
    let mut version = None;
    assert_eq!(
        ghosty::presence::rewrite_unaddressed_presence_in(&root, PresenceStatus::Offline, &mut version),
        Ok(None)
    );
    let extract = ghosty::helper::helper_command_extract_from(&root, jid).expect("a message to the helper");
    assert_eq!(extract.command.as_deref(), Some("online"));
    assert!(extract.passthrough.starts_with("<presence"));
    assert!(extract.passthrough.ends_with("tail"));
    let message = xml("message", vec![("to", jid)], vec![]);
    assert!(ghosty::helper::helper_command_from_message(&message, jid).is_some());
    assert!(ghosty::helper::helper_command_from_message(&message, "other@x").is_none());
}

#[test]
fn start_refusal_names_the_launch_error() {
    let mut state = loaded_state();
    let options = StartOptions {
        game: LaunchGame::Lol,
        game_patchline: "live".to_string(),
        riot_client_params: Some("--x \"open".to_string()),
        game_params: None,
        launch_game: false,
    };
    match state.prepare_start(&options, &[]) {
        Err(StartError::Launch(e)) => assert_eq!(e, LaunchError::UnclosedQuote('"')),
        _ => panic!("launch parameters should be refused"),
    }
}

#[test]
fn safe_mode_connection_passes_every_byte_on() {
    let reads: Vec<&[u8]> = vec![b"<presence><show>ch", b"at</show>\xc3", &[0xa9], b"</presence>"];
    let mut session = ChatSession::new(&chat_server(), false);
    let mut sent = Vec::new();
    for read in &reads {
        let actions = session.on_client_data(read.to_vec(), &live_settings(false, true)).expect("safe mode");
        sent.extend(bytes_to_server(&actions));
    }
    sent.extend(bytes_to_server(&session.on_client_closed()));
    assert_eq!(sent, reads.concat());
}

#[test]
fn sni_needs_a_handshake_record() {
    assert!(ghosty::tls::parse_tls_sni(&[0x17, 3, 1, 0, 5, 1, 0, 0, 1]).is_none());
    assert!(ghosty::tls::parse_tls_sni(&[]).is_none());
}
