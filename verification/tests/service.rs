use ghosty::config_proxy::PatchedChatServer;
use ghosty::friends::format_friends_summary;
use ghosty::helper::{
    helper_command_reply, helper_intro_message, HelperCommandBuffer, HelperCommandResult, HelperPlan, HelperReply,
    HelperSettings, LcuLookup,
};
use ghosty::jid::{jid_domain_map, jid_domains, rewrite_jid_attribute_domains_from_map};
use ghosty::models::{ConnectionHealth, HealthState, LaunchGame, LogCategory, LogLevel, PresenceStatus, StartupStatus};
use ghosty::presence::{roster_item_count, ClientPresenceBuffer};
use ghosty::preview::{sanitize_stream_text, stream_preview};
use ghosty::state::{
    certificate_check, check_riot_processes, record_proxy_connection_error, ActiveConnectionGuard, AppState,
    ConnectionError, ServiceRuntime, StartError, StartOptions,
};
use ghosty::stream::{
    possible_roster_prefix_len, HelperFriendInjector, PresenceStats, StartupPresenceReplay, Utf8Chunk,
    Utf8StreamBuffer,
};
use ghosty::tls::parse_tls_sni;

const TEST_HELPER_JID: &str = "41c322a1-b328-495b-a004-5ccd3e45eae8@na2.pvp.net";

const HELP: &str = "Send online, offline, mobile, enable, disable, status, friends, auto accept on, auto accept off, auto accept status, opgg, or opgg multi.";

fn app_state_with_runtime(running: bool) -> AppState {
    AppState {
        runtime: Some(ServiceRuntime {
            running,
            chat_port: 1234,
            config_port: 5678,
            riot_chat: None,
            active_connections: 0,
            reconnect_attempts: 0,
            riot_client_path: None,
            active_game: LaunchGame::Lol,
        }),
        enabled: true,
        safe_mode: false,
        helper_friend: false,
        auto_accept: false,
        auto_accept_delay_ms: 2_000,
        auto_accept_state: "Disabled".to_string(),
        discord_webhook_url: String::new(),
        status: PresenceStatus::Offline,
        startup_status: StartupStatus::Last,
        connect_to_muc: true,
        health: ConnectionHealth::new(),
        logs: Vec::new(),
        stream_events: Vec::new(),
    }
}

fn settings(enabled: bool, status: PresenceStatus) -> HelperSettings {
    HelperSettings { enabled, status, auto_accept: false, auto_accept_state: "Disabled".to_string() }
}

/// Runs a plan against the settings as the proxy does: the change is applied
/// and the text reply given back.
fn run_plan(plan: HelperPlan, settings: &mut HelperSettings) -> HelperReply {
    if let Some(change) = plan.change {
        settings.apply(change);
    }
    plan.reply
}

fn text_reply(plan: Option<HelperPlan>, settings: &mut HelperSettings) -> Option<String> {
    match run_plan(plan?, settings) {
        HelperReply::Text(text) => Some(text),
        HelperReply::Lookup(lookup) => panic!("unexpected lookup {lookup:?}"),
    }
}

#[test]
fn snapshot_ignores_stopped_runtime() {
    let mut state = app_state_with_runtime(false);

    let snapshot = state.snapshot(None);

    assert!(!snapshot.running);
    assert_eq!(snapshot.chat_port, None);
    assert_eq!(snapshot.config_port, None);
}

#[test]
fn snapshot_resets_health_for_stopped_runtime() {
    let mut state = app_state_with_runtime(false);
    state.health.config_patched.set(HealthState::Error, "Config proxy stopped");
    state.health.tls_connected.set(HealthState::Error, "TLS setup failed");
    state.health.active_connections = 2;
    state.health.reconnect_attempts = 3;

    let snapshot = state.snapshot(None);

    assert!(!snapshot.running);
    assert_eq!(snapshot.health.config_patched.state, HealthState::Waiting);
    assert_eq!(snapshot.health.config_patched.detail, "Waiting");
    assert_eq!(snapshot.health.tls_connected.state, HealthState::Waiting);
    assert_eq!(snapshot.health.tls_connected.detail, "Waiting");
    assert_eq!(snapshot.health.active_connections, 0);
    assert_eq!(snapshot.health.reconnect_attempts, 0);
}

#[test]
fn clear_stopped_runtime_removes_stale_runtime() {
    let mut state = app_state_with_runtime(false);

    state.clear_stopped_runtime();

    assert!(state.runtime.is_none());
}

#[test]
fn clear_stopped_runtime_keeps_active_runtime() {
    let mut state = app_state_with_runtime(true);

    state.clear_stopped_runtime();

    assert!(state.runtime.is_some());
    assert!(state.snapshot(None).running);
}

#[test]
fn start_failure_resets_stale_health_before_validation_error() {
    let mut state = app_state_with_runtime(false);
    state.health.config_proxy.set(HealthState::Ready, "stale proxy");
    state.health.active_connections = 3;

    let result = state.prepare_start(
        &StartOptions {
            game: LaunchGame::Lol,
            game_patchline: "live".to_string(),
            riot_client_params: Some("--flag \"unfinished".to_string()),
            game_params: None,
            launch_game: false,
        },
        &[],
    );

    assert!(result.is_err());
    let snapshot = state.snapshot(None);
    assert!(!snapshot.running);
    assert_eq!(snapshot.health.config_proxy.state, HealthState::Waiting);
    assert_eq!(snapshot.health.config_proxy.detail, "Waiting");
    assert_eq!(snapshot.health.active_connections, 0);
}

#[test]
fn start_is_refused_while_running() {
    let mut state = app_state_with_runtime(true);
    let options = StartOptions {
        game: LaunchGame::Lol,
        game_patchline: "live".to_string(),
        riot_client_params: None,
        game_params: None,
        launch_game: false,
    };

    assert!(matches!(state.prepare_start(&options, &[]), Err(StartError::AlreadyRunning)));
}

#[test]
fn stopped_runtime_connection_error_does_not_dirty_reset_health() {
    let mut reconnect_attempts = 0;
    let mut health = ConnectionHealth::new();

    let line = record_proxy_connection_error(
        false,
        &mut reconnect_attempts,
        &mut health,
        &ConnectionError::Failed("connection closed during stop".to_string()),
    );

    assert_eq!(reconnect_attempts, 0);
    assert_eq!(health.tls_connected.state, HealthState::Waiting);
    assert_eq!(health.xmpp_active.state, HealthState::Waiting);
    assert_eq!(line.level, LogLevel::Info);
    assert!(line.message.contains("after Ghosty stopped"));
}

#[test]
fn active_runtime_connection_error_marks_reconnect_warning() {
    let mut reconnect_attempts = 0;
    let mut health = ConnectionHealth::new();

    let line = record_proxy_connection_error(
        true,
        &mut reconnect_attempts,
        &mut health,
        &ConnectionError::Failed("connection interrupted".to_string()),
    );

    assert_eq!(reconnect_attempts, 1);
    assert_eq!(health.tls_connected.state, HealthState::Warning);
    assert_eq!(health.xmpp_active.state, HealthState::Warning);
    assert_eq!(health.reconnect_attempts, 1);
    assert_eq!(line.level, LogLevel::Warn);
    assert!(line.message.contains("connection interrupted"));
}

#[test]
fn active_runtime_clean_close_does_not_mark_reconnect_warning() {
    let mut reconnect_attempts = 0;
    let mut health = ConnectionHealth::new();

    let line = record_proxy_connection_error(true, &mut reconnect_attempts, &mut health, &ConnectionError::CleanClose);

    assert_eq!(reconnect_attempts, 0);
    assert_eq!(health.tls_connected.state, HealthState::Waiting);
    assert_eq!(health.xmpp_active.state, HealthState::Waiting);
    assert_eq!(line.level, LogLevel::Info);
    assert!(line.message.contains("closed cleanly"));
}

#[test]
fn active_connection_guard_clears_stale_active_health_on_last_close() {
    let mut health = ConnectionHealth::new();
    health.active_connections = 1;
    health.tls_connected.set(HealthState::Active, "TLS tunnel established");
    health.xmpp_active.set(HealthState::Active, "Riot chat traffic is flowing");
    let mut guard = ActiveConnectionGuard { active_connections: 1, health };

    guard.close();

    let health = guard.health;
    assert_eq!(health.active_connections, 0);
    assert_eq!(health.tls_connected.state, HealthState::Ready);
    assert_eq!(health.tls_connected.detail, "Waiting for Riot Client connection");
    assert_eq!(health.xmpp_active.state, HealthState::Ready);
    assert_eq!(health.xmpp_active.detail, "Waiting for Riot chat traffic");
}

#[test]
fn active_connection_guard_preserves_warning_health_on_last_close() {
    let mut health = ConnectionHealth::new();
    health.active_connections = 1;
    health.tls_connected.set(HealthState::Warning, "Last connection closed");
    health.xmpp_active.set(HealthState::Warning, "Waiting for Riot Client reconnect");
    let mut guard = ActiveConnectionGuard { active_connections: 1, health };

    guard.close();

    let health = guard.health;
    assert_eq!(health.active_connections, 0);
    assert_eq!(health.tls_connected.state, HealthState::Warning);
    assert_eq!(health.tls_connected.detail, "Last connection closed");
    assert_eq!(health.xmpp_active.state, HealthState::Warning);
    assert_eq!(health.xmpp_active.detail, "Waiting for Riot Client reconnect");
}

#[test]
fn certificate_check_reports_missing_cache_as_actionable() {
    let check = certificate_check(None);

    assert!(!check.ok);
    assert!(check.detail.contains("start Ghosty once"));
}

#[test]
fn certificate_check_rejects_invalid_cache() {
    let check = certificate_check(Some(false));

    assert!(!check.ok);
    assert!(check.detail.contains("invalid"));
}

#[test]
fn riot_process_check_names_running_processes() {
    let check = check_riot_processes(Ok(vec!["LeagueClient".to_string(), "RiotClientUx".to_string()]));

    assert!(!check.ok);
    assert_eq!(check.detail, "Riot is already running (LeagueClient, RiotClientUx); use Clean Restart before launching");
    assert!(check_riot_processes(Ok(Vec::new())).ok);
}

#[test]
fn settings_changes_are_logged() {
    let mut state = AppState::load(StartupStatus::Mobile, PresenceStatus::Chat, true, false, 2_000, String::new());
    assert_eq!(state.status, PresenceStatus::Mobile);

    state.set_status(PresenceStatus::Offline);
    assert_eq!(state.set_auto_accept_delay_ms(50_000), 10_000);
    assert_eq!(state.set_discord_webhook_url("  https://discord.test/hook  "), "https://discord.test/hook");

    assert_eq!(state.status, PresenceStatus::Offline);
    assert_eq!(state.auto_accept_delay_ms, 10_000);
    let messages: Vec<&str> = state.logs.iter().map(|line| line.message.as_str()).collect();
    assert_eq!(
        messages,
        vec![
            "Presence target set to offline",
            "Auto accept delay set to 10000ms",
            "Discord auto-accept webhook updated"
        ]
    );
    assert!(state.logs.iter().all(|line| line.category == LogCategory::System));
}

#[test]
fn log_keeps_only_the_most_recent_lines() {
    let mut state = AppState::load(StartupStatus::Last, PresenceStatus::Chat, true, false, 2_000, String::new());

    for index in 0..300 {
        state.note_warning(format!("warning {index}"));
    }

    assert_eq!(state.logs.len(), 240);
    assert_eq!(state.logs[0].message, "warning 60");
    assert_eq!(state.logs[239].message, "warning 299");
}

#[test]
fn snapshot_reports_running_runtime_and_chat_server() {
    let mut state = app_state_with_runtime(true);
    if let Some(runtime) = state.runtime.as_mut() {
        runtime.riot_chat =
            Some(PatchedChatServer { host: "na2.chat.si.riotgames.com".to_string(), port: 5223, affinity: None });
        runtime.active_connections = 2;
    }

    let snapshot = state.snapshot(Some("C:\\Riot\\RiotClientServices.exe".to_string()));

    assert!(snapshot.running);
    assert_eq!(snapshot.chat_port, Some(1234));
    assert_eq!(snapshot.riot_chat_host.as_deref(), Some("na2.chat.si.riotgames.com"));
    assert_eq!(snapshot.riot_chat_port, Some(5223));
    assert_eq!(snapshot.riot_client_path.as_deref(), Some("C:\\Riot\\RiotClientServices.exe"));
    assert_eq!(snapshot.active_game_label.as_deref(), Some("League of Legends"));
    assert_eq!(snapshot.health.active_connections, 2);
}

#[test]
fn helper_command_reply_reads_message_body_only() {
    let mut settings = settings(true, PresenceStatus::Chat);

    let reply = text_reply(
        helper_command_reply("<message from='x'><subject>offline</subject><body>status</body></message>", &settings),
        &mut settings,
    )
    .expect("status command should reply");

    assert_eq!(
        reply,
        format!("You are appearing online. Presence masking is enabled. Auto accept is disabled. Client state: Disabled. {HELP}")
    );
    assert_eq!(settings.status, PresenceStatus::Chat);
}

#[test]
fn helper_command_status_reports_disabled_masking() {
    let mut settings = settings(false, PresenceStatus::Offline);

    let reply = text_reply(helper_command_reply("<message><body>status</body></message>", &settings), &mut settings)
        .expect("status command should reply");

    assert_eq!(
        reply,
        format!("You are appearing offline. Presence masking is disabled. Auto accept is disabled. Client state: Disabled. {HELP}")
    );
}

#[test]
fn helper_intro_message_reports_current_status() {
    let settings = settings(true, PresenceStatus::Mobile);

    let message = helper_intro_message(&settings);

    assert_eq!(
        message,
        format!("You are appearing mobile. Presence masking is enabled. Auto accept is disabled. Client state: Disabled. {HELP}")
    );
}

#[test]
fn helper_command_reply_accepts_case_and_whitespace() {
    let mut settings = settings(true, PresenceStatus::Chat);

    let reply =
        text_reply(helper_command_reply("<message><body>  OFFLINE  </body></message>", &settings), &mut settings)
            .expect("offline command should reply");

    assert_eq!(reply, "You are now appearing offline.");
    assert_eq!(settings.status, PresenceStatus::Offline);
}

#[test]
fn helper_command_reply_accepts_command_words_in_message_text() {
    let mut settings = settings(false, PresenceStatus::Offline);

    let reply = text_reply(
        helper_command_reply("<message><body>please go online now</body></message>", &settings),
        &mut settings,
    )
    .expect("online command should reply");

    assert_eq!(reply, "You are now appearing online.");
    assert_eq!(settings.status, PresenceStatus::Chat);
}

#[test]
fn helper_command_reply_replies_to_every_supported_command() {
    let texts = [
        ("online", "You are now appearing online.".to_string()),
        ("offline", "You are now appearing offline.".to_string()),
        ("mobile", "You are now appearing mobile.".to_string()),
        ("enable", "Ghosty is now enabled.".to_string()),
        ("disable", "Ghosty is now disabled.".to_string()),
        (
            "status",
            format!("You are appearing mobile. Presence masking is disabled. Auto accept is disabled. Client state: Disabled. {HELP}"),
        ),
        ("help", HELP.to_string()),
        ("auto accept", "Auto accept is now enabled.".to_string()),
        ("auto accept on", "Auto accept is now enabled.".to_string()),
        ("turn on auto accept", "Auto accept is now enabled.".to_string()),
        ("auto accept off", "Auto accept is now disabled.".to_string()),
        ("auto accept status", "Auto accept is disabled. Client state: Disabled.".to_string()),
    ];
    let lookups = [
        ("op.gg", LcuLookup::SummonerLink),
        ("op.gg multi", LcuLookup::LobbyLink),
        ("friends status", LcuLookup::FriendsSummary),
    ];

    for (command, expected) in texts {
        let mut settings = settings(false, PresenceStatus::Mobile);
        let mut buffer = HelperCommandBuffer::new(TEST_HELPER_JID.to_string());

        let result = buffer.push(
            &format!("<message to='{TEST_HELPER_JID}/RC-Ghosty'><body>{command}</body></message>"),
            &settings,
        );

        let HelperCommandResult::Complete { plan: Some(plan), passthrough } = result else {
            panic!("{command} command should reply");
        };
        assert!(passthrough.is_empty());
        match run_plan(plan, &mut settings) {
            HelperReply::Text(reply) => assert_eq!(reply, expected, "{command}"),
            HelperReply::Lookup(_) => panic!("{command} should reply with text"),
        }
    }
    for (command, expected) in lookups {
        let settings = settings(false, PresenceStatus::Mobile);
        let mut buffer = HelperCommandBuffer::new(TEST_HELPER_JID.to_string());

        let result = buffer.push(
            &format!("<message to='{TEST_HELPER_JID}/RC-Ghosty'><body>{command}</body></message>"),
            &settings,
        );

        assert!(matches!(
            result,
            HelperCommandResult::Complete {
                plan: Some(HelperPlan { reply: HelperReply::Lookup(lookup), change: None }),
                passthrough: ref pass
            } if lookup == expected && pass.is_empty()
        ));
    }
    assert_eq!(
        format_friends_summary(&[]),
        "Friends: 0 found. League Client did not return any friends."
    );
}

#[test]
fn helper_command_reply_ignores_unknown_words() {
    let settings = settings(true, PresenceStatus::Chat);

    let reply = helper_command_reply("<message><body>please wave back</body></message>", &settings);

    assert!(reply.is_none());
}

#[test]
fn helper_command_reply_decodes_xml_body_text_before_matching() {
    let mut settings = settings(true, PresenceStatus::Chat);

    let reply =
        text_reply(helper_command_reply("<message><body>help &amp; status</body></message>", &settings), &mut settings)
            .expect("status command should reply");

    assert_eq!(
        reply,
        format!("You are appearing online. Presence masking is enabled. Auto accept is disabled. Client state: Disabled. {HELP}")
    );
}

#[test]
fn helper_command_reply_reads_message_from_batched_stanzas() {
    let mut settings = settings(true, PresenceStatus::Chat);

    let reply =
        text_reply(helper_command_reply("<iq id='1'/><message><body>mobile</body></message>", &settings), &mut settings)
            .expect("mobile command should reply");

    assert_eq!(reply, "You are now appearing mobile.");
    assert_eq!(settings.status, PresenceStatus::Mobile);
}

#[test]
fn helper_command_reply_ignores_fragments_without_message_body() {
    let settings = settings(true, PresenceStatus::Chat);

    assert!(helper_command_reply("<iq id='1'/><presence/>", &settings).is_none());
}

fn complete_text(result: HelperCommandResult, settings: &mut HelperSettings) -> (Option<String>, Vec<u8>) {
    match result {
        HelperCommandResult::Complete { plan, passthrough } => (text_reply(plan, settings), passthrough),
        other => panic!("helper command should complete, got {other:?}"),
    }
}

#[test]
fn helper_command_buffer_waits_for_split_helper_message() {
    let mut settings = settings(true, PresenceStatus::Chat);
    let mut buffer = HelperCommandBuffer::new(TEST_HELPER_JID.to_string());

    let first = buffer.push(&format!("<message to='{TEST_HELPER_JID}/RC-Ghosty'><body>off"), &settings);
    assert!(matches!(first, HelperCommandResult::Pending));

    let second = buffer.push("line</body></message>", &settings);
    let (reply, pass) = complete_text(second, &mut settings);

    assert_eq!(reply.as_deref(), Some("You are now appearing offline."));
    assert!(pass.is_empty());
    assert_eq!(settings.status, PresenceStatus::Offline);
}

#[test]
fn helper_command_buffer_waits_for_split_message_marker() {
    let mut settings = settings(true, PresenceStatus::Chat);
    let mut buffer = HelperCommandBuffer::new(TEST_HELPER_JID.to_string());

    let first = buffer.push("<mess", &settings);
    assert!(matches!(first, HelperCommandResult::Pending));

    let second = buffer.push(&format!("age to='{TEST_HELPER_JID}/RC-Ghosty'><body>mobile</body></message>"), &settings);
    let (reply, pass) = complete_text(second, &mut settings);

    assert_eq!(reply.as_deref(), Some("You are now appearing mobile."));
    assert!(pass.is_empty());
    assert_eq!(settings.status, PresenceStatus::Mobile);
}

#[test]
fn helper_command_buffer_preserves_split_non_helper_message() {
    let mut settings = settings(true, PresenceStatus::Chat);
    let mut buffer = HelperCommandBuffer::new(TEST_HELPER_JID.to_string());

    let first = buffer.push("<message to='friend@na2.pvp.net'><body>hel", &settings);
    assert!(matches!(first, HelperCommandResult::Pending));

    let second = buffer.push("lo</body></message>", &settings);
    let (reply, pass) = complete_text(second, &mut settings);
    let passthrough = String::from_utf8(pass).expect("passthrough should be utf8");

    assert!(reply.is_none());
    assert!(passthrough.contains("friend@na2.pvp.net"));
    assert!(passthrough.contains("<body>hello</body>"));
    assert_eq!(settings.status, PresenceStatus::Chat);
}

#[test]
fn helper_command_buffer_discards_unknown_complete_helper_message() {
    let mut settings = settings(true, PresenceStatus::Chat);
    let mut buffer = HelperCommandBuffer::new(TEST_HELPER_JID.to_string());

    let result = buffer.push(&format!("<message to='{TEST_HELPER_JID}/RC-Ghosty'><body>wave</body></message>"), &settings);
    let (reply, pass) = complete_text(result, &mut settings);

    assert!(reply.is_none());
    assert!(pass.is_empty());
    assert_eq!(settings.status, PresenceStatus::Chat);
}

#[test]
fn helper_command_buffer_clear_drops_stale_partial_command() {
    let settings = settings(true, PresenceStatus::Chat);
    let mut buffer = HelperCommandBuffer::new(TEST_HELPER_JID.to_string());

    let first = buffer.push(&format!("<message to='{TEST_HELPER_JID}/RC-Ghosty'><body>off"), &settings);
    assert!(matches!(first, HelperCommandResult::Pending));

    buffer.clear();

    let second = buffer.push("line</body></message>", &settings);

    assert!(matches!(second, HelperCommandResult::NotHelper));
    assert_eq!(settings.status, PresenceStatus::Chat);
}

#[test]
fn helper_command_buffer_ignores_non_helper_content() {
    let settings = settings(true, PresenceStatus::Chat);
    let mut buffer = HelperCommandBuffer::new(TEST_HELPER_JID.to_string());

    let result = buffer.push("<message to='friend@na2.pvp.net'><body>offline</body></message>", &settings);

    assert!(matches!(result, HelperCommandResult::NotHelper));
}

#[test]
fn helper_command_buffer_ignores_messages_from_helper() {
    let settings = settings(true, PresenceStatus::Chat);
    let mut buffer = HelperCommandBuffer::new(TEST_HELPER_JID.to_string());

    let result =
        buffer.push(&format!("<message from='{TEST_HELPER_JID}/RC-Ghosty'><body>offline</body></message>"), &settings);

    assert!(matches!(result, HelperCommandResult::NotHelper));
    assert_eq!(settings.status, PresenceStatus::Chat);
}

#[test]
fn helper_command_buffer_reads_targeted_message_from_batched_stanzas() {
    let mut settings = settings(true, PresenceStatus::Chat);
    let mut buffer = HelperCommandBuffer::new(TEST_HELPER_JID.to_string());

    let result = buffer.push(
        &format!("<iq id='1'/><message to=\"{TEST_HELPER_JID}/RC-Ghosty\"><body>mobile</body></message>"),
        &settings,
    );
    let (reply, pass) = complete_text(result, &mut settings);

    assert_eq!(reply.as_deref(), Some("You are now appearing mobile."));
    assert!(!String::from_utf8_lossy(&pass).contains(TEST_HELPER_JID));
    assert!(String::from_utf8_lossy(&pass).contains("<iq"));
    assert_eq!(settings.status, PresenceStatus::Mobile);
}

#[test]
fn helper_command_buffer_preserves_non_helper_stanzas_around_command() {
    let mut settings = settings(true, PresenceStatus::Chat);
    let mut buffer = HelperCommandBuffer::new(TEST_HELPER_JID.to_string());

    let result = buffer.push(
        &format!(
            "<presence><show>chat</show></presence><message to='{TEST_HELPER_JID}/RC-Ghosty'><body>offline</body></message><message to='friend@na2.pvp.net'><body>hello</body></message>"
        ),
        &settings,
    );
    let (reply, pass) = complete_text(result, &mut settings);
    let passthrough = String::from_utf8(pass).expect("passthrough should be utf8");

    assert_eq!(reply.as_deref(), Some("You are now appearing offline."));
    assert!(passthrough.contains("<presence"));
    assert!(passthrough.contains("friend@na2.pvp.net"));
    assert!(!passthrough.contains(TEST_HELPER_JID));
    assert_eq!(settings.status, PresenceStatus::Offline);
}

#[test]
fn helper_command_buffer_preserves_text_between_passthrough_stanzas() {
    let mut settings = settings(true, PresenceStatus::Chat);
    let mut buffer = HelperCommandBuffer::new(TEST_HELPER_JID.to_string());

    let result = buffer.push(
        &format!(
            "<presence><show>chat</show></presence>\n<message to='{TEST_HELPER_JID}/RC-Ghosty'><body>status</body></message>\n<iq id='2'/>"
        ),
        &settings,
    );
    let (reply, pass) = complete_text(result, &mut settings);
    let passthrough = String::from_utf8(pass).expect("passthrough should be utf8");

    assert_eq!(
        reply,
        Some(format!(
            "You are appearing online. Presence masking is enabled. Auto accept is disabled. Client state: Disabled. {HELP}"
        ))
    );
    assert!(passthrough.contains("</presence>"));
    assert!(passthrough.contains('\n'));
    assert!(passthrough.contains("<iq"));
    assert!(!passthrough.contains(TEST_HELPER_JID));
}

#[test]
fn utf8_stream_buffer_waits_for_split_multibyte_character() {
    let mut buffer = Utf8StreamBuffer::new();
    let mut bytes = "olé".as_bytes().to_vec();
    let suffix = bytes.split_off(bytes.len() - 1);

    let first = buffer.push(bytes);
    assert!(matches!(first, Utf8Chunk::Text { ref content, .. } if content == "ol"));
    assert!(buffer.has_pending());

    let second = buffer.push(suffix);
    assert!(matches!(second, Utf8Chunk::Text { ref content, .. } if content == "é"));
    assert!(!buffer.has_pending());
}

#[test]
fn utf8_stream_buffer_flushes_incomplete_suffix_on_close() {
    let mut buffer = Utf8StreamBuffer::new();
    let mut bytes = "olé".as_bytes().to_vec();
    let expected_pending = vec![bytes[bytes.len() - 2]];
    let _suffix = bytes.split_off(bytes.len() - 1);

    let first = buffer.push(bytes);
    assert!(matches!(first, Utf8Chunk::Text { ref content, .. } if content == "ol"));
    assert!(buffer.has_pending());

    assert_eq!(buffer.flush(), expected_pending);
    assert!(!buffer.has_pending());
}

#[test]
fn utf8_stream_buffer_passes_invalid_bytes_on() {
    let mut buffer = Utf8StreamBuffer::new();

    let chunk = buffer.push(vec![b'a', 0xff, b'b']);

    assert!(matches!(chunk, Utf8Chunk::Binary(ref bytes) if bytes == &vec![b'a', 0xff, b'b']));
    assert!(!buffer.has_pending());
}

fn split_after_accent(content: &str) -> (Vec<u8>, Vec<u8>) {
    let split_at = content
        .as_bytes()
        .windows("é".len())
        .position(|window| window == "é".as_bytes())
        .expect("test string should include accented character")
        + 1;
    (content.as_bytes()[..split_at].to_vec(), content.as_bytes()[split_at..].to_vec())
}

#[test]
fn helper_injector_handles_roster_after_split_multibyte_character() {
    let mut utf8 = Utf8StreamBuffer::new();
    let mut injector = HelperFriendInjector::new(TEST_HELPER_JID.to_string());
    let content = "olé<iq type='result'><query xmlns='jabber:iq:riotgames:roster'><item jid='friend@na2.pvp.net'/></query></iq>";
    let (first_bytes, second_bytes) = split_after_accent(content);

    let first = match utf8.push(first_bytes) {
        Utf8Chunk::Text { content, .. } => injector.push(&content),
        _ => panic!("first chunk should include a valid UTF-8 prefix"),
    };
    assert!(!first.inserted);
    assert_eq!(first.bytes, b"ol");

    let second = match utf8.push(second_bytes) {
        Utf8Chunk::Text { content, .. } => injector.push(&content),
        _ => panic!("second chunk should complete the split character"),
    };
    let mut output_bytes = first.bytes;
    output_bytes.extend(second.bytes);
    let output = String::from_utf8(output_bytes).expect("injected output should be utf8");

    assert!(second.inserted);
    assert!(output.contains("olé"));
    assert!(output.contains(TEST_HELPER_JID));
    assert!(output.contains("friend@na2.pvp.net"));
}

fn push_presence(
    buffer: &mut ClientPresenceBuffer,
    content: &str,
    status: PresenceStatus,
    connect_to_muc: bool,
    valorant_version: &mut Option<String>,
) -> Vec<u8> {
    buffer.push(content, true, status, connect_to_muc, valorant_version).expect("presence chunk should not fail")
}

#[test]
fn client_presence_buffer_rewrites_after_split_multibyte_character() {
    let mut utf8 = Utf8StreamBuffer::new();
    let mut presence = ClientPresenceBuffer::new();
    presence.initial_presence_forwarded = true;
    let mut valorant_version = None;
    let (first_bytes, second_bytes) = split_after_accent("<presence><show>chat</show><status>olé</status></presence>");

    let first = match utf8.push(first_bytes) {
        Utf8Chunk::Text { content, .. } => {
            push_presence(&mut presence, &content, PresenceStatus::Offline, true, &mut valorant_version)
        },
        _ => panic!("first chunk should include a valid UTF-8 prefix"),
    };
    assert!(first.is_empty());

    let second = match utf8.push(second_bytes) {
        Utf8Chunk::Text { content, .. } => {
            push_presence(&mut presence, &content, PresenceStatus::Offline, true, &mut valorant_version)
        },
        _ => panic!("second chunk should complete the split character"),
    };
    let rewritten = String::from_utf8(second).expect("presence should remain utf8");

    assert!(rewritten.contains("<show>offline</show>"));
    assert!(!rewritten.contains("<status>ol"));
}

#[test]
fn client_presence_buffer_rewrites_split_presence() {
    let mut buffer = ClientPresenceBuffer::new();
    buffer.initial_presence_forwarded = true;
    let mut valorant_version = None;

    let first = push_presence(
        &mut buffer,
        "<presence><games><league_of_legends><st>chat</st></league_of_legends></games>",
        PresenceStatus::Offline,
        true,
        &mut valorant_version,
    );
    assert!(first.is_empty());

    let second = push_presence(
        &mut buffer,
        "<show>chat</show><status>hello</status></presence>",
        PresenceStatus::Offline,
        true,
        &mut valorant_version,
    );
    let rewritten = String::from_utf8(second).expect("presence should remain utf8");

    assert!(rewritten.contains("<show>offline</show>"));
    assert!(rewritten.contains("<league_of_legends>"));
    assert!(rewritten.contains("<st>offline</st>"));
    assert!(!rewritten.contains("<status>"));
}

#[test]
fn client_presence_buffer_forwards_initial_presence_then_stores_masked_followup() {
    let mut buffer = ClientPresenceBuffer::new();
    let mut valorant_version = None;

    let output = push_presence(
        &mut buffer,
        "<iq type='get' id='1'/><presence><games><league_of_legends><st>chat</st></league_of_legends></games><show>chat</show><status>hello</status></presence>",
        PresenceStatus::Offline,
        true,
        &mut valorant_version,
    );
    let output = String::from_utf8(output).expect("presence should remain utf8");

    assert!(output.contains("<iq type='get' id='1'/>"));
    assert!(output.contains("<show>chat</show>"));
    assert!(output.contains("<status>hello</status>"));
    assert!(buffer.has_warmup_masked_presence());

    let masked = String::from_utf8(buffer.take_warmup_masked_presence().expect("masked followup should be cached"))
        .expect("masked followup should remain utf8");

    assert!(masked.contains("<show>offline</show>"));
    assert!(masked.contains("<st>offline</st>"));
    assert!(!masked.contains("<iq"));
    assert!(!masked.contains("<status>hello</status>"));
}

#[test]
fn client_presence_buffer_uses_initial_status_for_split_presence() {
    let mut buffer = ClientPresenceBuffer::new();
    buffer.initial_presence_forwarded = true;
    let mut valorant_version = None;

    let first = push_presence(&mut buffer, "<presence><show>chat</show>", PresenceStatus::Offline, true, &mut valorant_version);
    assert!(first.is_empty());

    let second = push_presence(&mut buffer, "</presence>", PresenceStatus::Mobile, true, &mut valorant_version);
    let rewritten = String::from_utf8(second).expect("presence should remain utf8");

    assert!(rewritten.contains("<show>offline</show>"));
    assert!(!rewritten.contains("<show>mobile</show>"));
}

#[test]
fn client_presence_buffer_uses_initial_muc_setting_for_split_presence() {
    let mut buffer = ClientPresenceBuffer::new();
    let mut valorant_version = None;

    let first = push_presence(
        &mut buffer,
        "<presence to='room@conference.pvp.net'><show>chat</show>",
        PresenceStatus::Offline,
        false,
        &mut valorant_version,
    );
    assert!(first.is_empty());

    let second = push_presence(&mut buffer, "</presence>", PresenceStatus::Offline, true, &mut valorant_version);

    assert!(second.is_empty());
}

#[test]
fn client_presence_buffer_preserves_addressed_presence_when_muc_enabled() {
    let mut buffer = ClientPresenceBuffer::new();
    let mut valorant_version = None;

    let output = push_presence(
        &mut buffer,
        "<presence to='room@conference.pvp.net'><games><league_of_legends><st>chat</st></league_of_legends></games><show>chat</show><status>hello</status></presence>",
        PresenceStatus::Offline,
        true,
        &mut valorant_version,
    );
    let output = String::from_utf8(output).expect("presence should remain utf8");

    assert!(output.contains("to=\"room@conference.pvp.net\""));
    assert!(output.contains("<show>chat</show>"));
    assert!(output.contains("<status>hello</status>"));
    assert!(output.contains("<league_of_legends>"));
    assert!(!output.contains("<show>offline</show>"));
}

#[test]
fn client_presence_buffer_waits_for_split_presence_marker() {
    let mut buffer = ClientPresenceBuffer::new();
    buffer.initial_presence_forwarded = true;
    let mut valorant_version = None;

    let first = push_presence(&mut buffer, "<pre", PresenceStatus::Mobile, true, &mut valorant_version);
    assert!(first.is_empty());

    let second = push_presence(
        &mut buffer,
        "sence><show>chat</show></presence>",
        PresenceStatus::Mobile,
        true,
        &mut valorant_version,
    );
    let rewritten = String::from_utf8(second).expect("presence should remain utf8");

    assert!(rewritten.contains("<show>mobile</show>"));
}

#[test]
fn client_presence_buffer_forwards_non_presence_content() {
    let mut buffer = ClientPresenceBuffer::new();
    let mut valorant_version = None;

    let output = push_presence(
        &mut buffer,
        "<message><body>hello</body></message>",
        PresenceStatus::Offline,
        true,
        &mut valorant_version,
    );

    assert_eq!(output, b"<message><body>hello</body></message>");
}

#[test]
fn client_presence_buffer_rewrites_presence_inside_batched_stanzas() {
    let mut buffer = ClientPresenceBuffer::new();
    buffer.initial_presence_forwarded = true;
    let mut valorant_version = None;

    let output = push_presence(
        &mut buffer,
        "<message id='1'/><presence><show>chat</show><status>hello</status></presence>",
        PresenceStatus::Offline,
        true,
        &mut valorant_version,
    );
    let rewritten = String::from_utf8(output).expect("batched stanza should remain utf8");

    assert!(rewritten.contains("<message"));
    assert!(rewritten.contains("<show>offline</show>"));
    assert!(!rewritten.contains("<status>hello</status>"));
}

#[test]
fn server_presence_stats_summarizes_friend_status_batches() {
    let mut stats = PresenceStats::new();
    let message = stats
        .record_server_batch(
            "<presence from='a@na2.pvp.net'><games><league_of_legends><st>chat</st></league_of_legends></games><show>chat</show></presence>\
             <presence from='b@na2.pvp.net' type='unavailable'/>\
             <presence from='c@na2.pvp.net'><games><league_of_legends><st>dnd</st></league_of_legends></games><show>dnd</show></presence>",
        )
        .expect("presence batch should be logged");

    assert!(message.contains("batch=3"));
    assert!(message.contains("unavailable=1"));
    assert!(message.contains("show(chat/dnd/away/offline/mobile)=1/1/0/0/0"));
    assert!(message.contains("league_st(chat/dnd/away/offline/mobile)=1/1/0/0/0"));
    assert!(message.contains("domains=na2.pvp.net=3"));
    assert_eq!(stats.total_presence, 3);
    assert_eq!(stats.total_unavailable, 1);
}

#[test]
fn server_presence_stats_marks_warmup_ready_after_presence_fanout() {
    let mut stats = PresenceStats::new();

    assert!(!stats.is_warmup_ready());
    let _ = stats.record_server_batch(
        "<presence from='a@na2.pvp.net'><show>chat</show></presence>\
         <presence from='b@na2.pvp.net'><show>dnd</show></presence>",
    );
    assert!(!stats.is_warmup_ready());
    let _ = stats.record_server_batch(
        "<presence from='c@na2.pvp.net'><games><league_of_legends><st>chat</st></league_of_legends></games><show>chat</show></presence>",
    );

    assert!(stats.is_warmup_ready());
}

#[test]
fn server_presence_stats_ignore_reads_without_presence() {
    let mut stats = PresenceStats::new();

    assert!(stats.record_server_batch("<message/>").is_none());
    assert_eq!(stats.batches_logged, 0);
    assert_eq!(stats.total_presence, 0);
}

#[test]
fn startup_presence_replay_extracts_only_presence_stanzas() {
    let mut replay = StartupPresenceReplay::new();

    let added = replay.push(
        "<iq id='1'/><presence from='a@na1.pvp.net'><show>chat</show></presence><message/>\
         <presence from='b@na1.pvp.net' type='unavailable'/>",
    );
    let body = String::from_utf8(replay.take()).expect("replay should be utf8");

    assert_eq!(added, 2);
    assert_eq!(replay.replayed_count(), 2);
    assert!(body.contains("from='a@na1.pvp.net'"));
    assert!(body.contains("from='b@na1.pvp.net'"));
    assert!(!body.contains("<iq"));
    assert!(!body.contains("<message"));
}

#[test]
fn startup_presence_replay_waits_for_split_stanza() {
    let mut replay = StartupPresenceReplay::new();

    assert_eq!(replay.push("<presence from='a@na1.pvp.net'><show>chat</show>"), 0);
    assert_eq!(replay.push("</presence><iq/>"), 1);
    let body = String::from_utf8(replay.take()).expect("replay should be utf8");

    assert_eq!(body, "<presence from='a@na1.pvp.net'><show>chat</show></presence>");
}

#[test]
fn startup_presence_replay_is_ready_only_after_quiet_time() {
    let mut replay = StartupPresenceReplay::new();
    assert!(!replay.is_ready_at(10_000));

    replay.push("<presence/>");
    replay.first_seen = Some(1_000);
    replay.last_seen = Some(2_000);

    assert!(!replay.is_ready_at(2_200));
    assert!(replay.is_ready_at(2_350));
    replay.take();
    assert!(!replay.is_ready_at(100_000));
    assert_eq!(replay.push("<presence/>"), 0);
}

#[test]
fn jid_domains_summarizes_roster_and_presence_domains() {
    assert_eq!(
        jid_domains(
            "<item jid='one@na1.pvp.net'/><item jid=\"two@na2.pvp.net/resource\"/><presence from='three@na1.pvp.net/RC'/>",
            "jid"
        ),
        "na1.pvp.net=1,na2.pvp.net=1"
    );
    assert_eq!(
        jid_domains("<item jid='one@na1.pvp.net'/><presence from='three@na1.pvp.net/RC'/>", "from"),
        "na1.pvp.net=1"
    );
}

#[test]
fn rewrites_server_jid_domains_to_match_roster_jids_per_user() {
    let roster_domains =
        jid_domain_map("<item jid='friend@na1.pvp.net'/><item jid='other@eu1.pvp.net'/>", "jid");
    let rewritten = rewrite_jid_attribute_domains_from_map(
        "<presence from='friend@na2.pvp.net/RC'><show>chat</show></presence>\
         <message from=\"other@na2.pvp.net/mobile\"/>\
         <message from='unknown@na2.pvp.net/mobile'/>\
         <presence from='room@conference.pvp.net/user'/>",
        "from",
        &roster_domains,
    )
    .expect("domain mismatch should be rewritten");

    assert!(rewritten.contains("friend@na1.pvp.net/RC"));
    assert!(rewritten.contains("other@eu1.pvp.net/mobile"));
    assert!(rewritten.contains("unknown@na2.pvp.net/mobile"));
    assert!(rewritten.contains("room@conference.pvp.net/user"));
    assert!(!rewritten.contains("friend@na2.pvp.net"));
}

#[test]
fn jid_domain_map_preserves_each_roster_jid_domain() {
    let domains = jid_domain_map("<item jid='a@na1.pvp.net'/><item jid='b@na1.pvp.net'/><item jid='c@na2.pvp.net'/>", "jid");
    assert_eq!(domains.get("a").as_deref(), Some("na1.pvp.net"));
    assert_eq!(domains.get("c").as_deref(), Some("na2.pvp.net"));
}

#[test]
fn stream_preview_redacts_entitlement_tokens() {
    let preview = stream_preview(b"<iq><entitlements><token>super-secret.jwt.payload</token></entitlements></iq>");

    assert!(preview.contains("<token>[redacted]</token>"));
    assert!(!preview.contains("super-secret"));
}

#[test]
fn stream_preview_escapes_line_breaks_and_redacts_attributes() {
    assert_eq!(stream_preview(b""), "(empty)");
    assert_eq!(
        sanitize_stream_text("<auth mechanism='X'>abc</auth>\n<a password=\"hunter2\" Token='t' x=1>"),
        "<auth mechanism='X'>[redacted]</auth>\\n<a password=\"[redacted]\" Token='[redacted]' x=1>"
    );
}

#[test]
fn stream_preview_truncates_long_reads() {
    let long = vec![b'a'; 1_500];

    let preview = stream_preview(&long);

    assert_eq!(preview.chars().count(), 1_400 + " ... [truncated]".len());
    assert!(preview.ends_with(" ... [truncated]"));
}

#[test]
fn possible_roster_prefix_keeps_only_partial_marker_tail() {
    let prefix_len = possible_roster_prefix_len("abc<query xmlns='jabber:iq");

    assert_eq!(prefix_len, "<query xmlns='jabber:iq".len());
}

#[test]
fn possible_roster_prefix_keeps_split_query_tag_with_extra_attributes() {
    let content = "abc<query ver='2' xmlns=\"jabber:iq";

    assert_eq!(possible_roster_prefix_len(content), "<query ver='2' xmlns=\"jabber:iq".len());
}

#[test]
fn possible_roster_prefix_ignores_unrelated_text() {
    assert_eq!(possible_roster_prefix_len("abc<message/>"), 0);
}

#[test]
fn helper_injector_inserts_when_roster_marker_is_split() {
    let mut injector = HelperFriendInjector::new(TEST_HELPER_JID.to_string());

    let first = injector.push("<iq type='result'><query xmlns='jabber:");
    assert!(!first.inserted);
    assert!(!first.bytes.is_empty());

    let second = injector.push("iq:riotgames:roster'><item jid='friend@na2.pvp.net'/></query></iq>");
    let output = String::from_utf8(second.bytes).expect("injected output should be utf-8");

    assert!(second.inserted);
    assert!(output.contains("Ghosty Active!"));
    assert!(output.contains("friend@na2.pvp.net"));
}

#[test]
fn helper_injector_buffers_a_marker_split_at_the_first_byte() {
    let mut injector = HelperFriendInjector::new(TEST_HELPER_JID.to_string());

    let first = injector.push("<");
    assert!(!first.inserted);
    assert!(first.bytes.is_empty());

    let second = injector.push("query xmlns='jabber:iq:riotgames:roster'><item jid='friend@na2.pvp.net'/></query>");
    let output = String::from_utf8(second.bytes).expect("injected output should be utf-8");

    assert!(second.inserted);
    assert!(output.contains("Ghosty Active!"));
    assert!(output.contains("friend@na2.pvp.net"));
}

#[test]
fn helper_injector_inserts_when_roster_query_has_double_quotes_and_extra_attributes() {
    let mut injector = HelperFriendInjector::new(TEST_HELPER_JID.to_string());

    let first = injector.push("<iq type='result'><query ver='2' xmlns=\"jabber:");
    assert!(!first.inserted);
    assert!(!first.bytes.is_empty());

    let second = injector.push("iq:riotgames:roster\"><item jid='friend@na2.pvp.net'/></query></iq>");
    let output = String::from_utf8(second.bytes).expect("injected output should be utf-8");

    assert!(second.inserted);
    assert!(output.contains("Ghosty Active!"));
    assert!(output.contains("friend@na2.pvp.net"));
}

#[test]
fn helper_injector_preserves_large_roster_split_across_many_chunks() {
    let mut injector = HelperFriendInjector::new(TEST_HELPER_JID.to_string());
    let friend_count = 500;
    let mut roster = "<iq type='result' id='roster'><query xmlns='jabber:iq:riotgames:roster'>".to_string();
    for index in 0..friend_count {
        roster.push_str(&format!("<item jid='friend-{index}@na2.pvp.net' name='Friend {index}' subscription='both'/>"));
    }
    roster.push_str("</query></iq>");

    let mut forwarded = Vec::new();
    let mut inserted = None;
    for chunk in roster.as_bytes().chunks(37) {
        let content = std::str::from_utf8(chunk).expect("test roster should stay utf-8");
        let injection = injector.push(content);
        if injection.inserted {
            inserted = Some((injection.roster_items_before, injection.roster_items_after));
        }
        forwarded.extend(injection.bytes);
    }
    forwarded.extend(injector.flush());
    let output = String::from_utf8(forwarded).expect("forwarded roster should stay utf-8");

    assert_eq!(inserted, Some((Some(friend_count), Some(friend_count + 1))));
    assert_eq!(roster_item_count(&output), friend_count + 1);
    for index in 0..friend_count {
        assert!(output.contains(&format!("friend-{index}@na2.pvp.net")));
    }
    assert!(output.contains("Ghosty Active!"));
    assert!(output.contains("</query></iq>"));
}

#[test]
fn helper_injector_flushes_buffered_partial_marker() {
    let mut injector = HelperFriendInjector::new(TEST_HELPER_JID.to_string());

    let first = injector.push("<");
    assert!(!first.inserted);
    assert!(first.bytes.is_empty());

    assert_eq!(injector.flush(), b"<");
    assert!(injector.is_empty());
}

#[test]
fn client_hello_sni_is_read_from_server_name_extension() {
    let host = b"chat.example";
    let mut name_list = vec![0u8];
    name_list.extend((host.len() as u16).to_be_bytes());
    name_list.extend(host);
    let mut extension = (name_list.len() as u16).to_be_bytes().to_vec();
    extension.extend(&name_list);
    let mut extensions = vec![0x00, 0x0a, 0x00, 0x02, 0xaa, 0xbb, 0x00, 0x00];
    extensions.extend((extension.len() as u16).to_be_bytes());
    extensions.extend(&extension);
    let mut hello = vec![0x16, 0x03, 0x01, 0x00, 0x00, 0x01, 0x00, 0x00, 0x00, 0x03, 0x03];
    hello.extend([0u8; 32]);
    hello.push(0);
    hello.extend([0x00, 0x02, 0x13, 0x01]);
    hello.extend([0x01, 0x00]);
    hello.extend((extensions.len() as u16).to_be_bytes());
    hello.extend(&extensions);

    assert_eq!(parse_tls_sni(&hello).as_deref(), Some("chat.example"));
    assert_eq!(parse_tls_sni(&hello[..20]), None);
    assert_eq!(parse_tls_sni(b"GET / HTTP/1.1"), None);
}
