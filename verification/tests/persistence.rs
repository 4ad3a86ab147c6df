use ghosty::models::{PresenceStatus, StartupStatus};
use ghosty::persistence::{
    clamp_auto_accept_delay, parse_bool, read_auto_accept, read_auto_accept_delay_ms, read_discord_webhook_url,
    read_helper_friend, read_session_status, read_startup_status, write_auto_accept_delay_ms,
    write_discord_webhook_url, write_session_status, write_startup_status,
};

#[test]
fn parse_bool_accepts_common_enabled_values() {
    for value in ["true", "TRUE", "1", "yes", "on"] {
        assert!(parse_bool(value));
    }
}

#[test]
fn parse_bool_treats_unknown_values_as_disabled() {
    for value in ["false", "0", "no", "off", "", "definitely"] {
        assert!(!parse_bool(value));
    }
}

#[test]
fn auto_accept_delay_is_clamped() {
    assert_eq!(clamp_auto_accept_delay(500), 500);
    assert_eq!(clamp_auto_accept_delay(99_999), 10_000);
}

#[test]
fn stored_settings_fall_back_to_defaults() {
    assert_eq!(read_startup_status(None), StartupStatus::Last);
    assert_eq!(read_session_status(None), PresenceStatus::Offline);
    assert!(read_helper_friend(None));
    assert!(!read_auto_accept(None));
    assert_eq!(read_auto_accept_delay_ms(None), 2_000);
    assert_eq!(read_auto_accept_delay_ms(Some("soon")), 2_000);
    assert_eq!(read_discord_webhook_url(None), "");
}

#[test]
fn stored_settings_are_read_back() {
    assert_eq!(read_startup_status(Some(" Mobile\n")), StartupStatus::Mobile);
    assert_eq!(read_session_status(Some("chat")), PresenceStatus::Chat);
    assert!(!read_helper_friend(Some("off")));
    assert!(read_auto_accept(Some("Yes")));
    assert_eq!(read_auto_accept_delay_ms(Some(" 750 ")), 750);
    assert_eq!(read_auto_accept_delay_ms(Some("20000")), 10_000);
    assert_eq!(read_discord_webhook_url(Some("  https://discord.test/hook \n")), "https://discord.test/hook");
}

#[test]
fn written_settings_read_back_as_written() {
    let setting = write_session_status(PresenceStatus::Mobile);
    assert_eq!(setting.file, "status");
    assert_eq!(read_session_status(Some(std::str::from_utf8(&setting.bytes).unwrap())), PresenceStatus::Mobile);

    let setting = write_startup_status(StartupStatus::Offline);
    assert_eq!(setting.file, "startupStatus");
    assert_eq!(read_startup_status(Some(std::str::from_utf8(&setting.bytes).unwrap())), StartupStatus::Offline);

    let setting = write_auto_accept_delay_ms(4_321);
    assert_eq!(read_auto_accept_delay_ms(Some(std::str::from_utf8(&setting.bytes).unwrap())), 4_321);

    let setting = write_discord_webhook_url("https://discord.test/hook");
    assert_eq!(setting.bytes, b"https://discord.test/hook");
}
