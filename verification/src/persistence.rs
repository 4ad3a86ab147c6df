//! Settings kept between sessions, one small file each: what a stored text
//! means, and what is stored for a value.
use vstd::prelude::*;

use vstd::utf8::{decode_utf8, encode_utf8, encode_utf8_decode_utf8};

use crate::models::{PresenceStatus, StartupStatus};
use crate::text::{
    all_digits, decimal, is_ascii_digit, is_ascii_lower, lemma_decimal_digits, trim_end, trim_start,
    chars_of, lower_seq, lowercase, parse_u32, parse_u32_str, seq_eq, trim, trim_str, trim_vec};

verus! {

/// A file of the settings directory and the bytes to store in it.
#[derive(Debug, Clone)]
pub struct StoredSetting {
    pub file: String,
    pub bytes: Vec<u8>,
}

/// The stored text as it is compared: trimmed and lower-cased.
pub open spec fn normalized(value: Seq<char>) -> Seq<char> {
    lower_seq(trim(value))
}

fn normalize(value: &str) -> (r: Vec<char>)
    ensures
        r@ == normalized(value@),
{
    let v = chars_of(value);
    let t = trim_vec(v.as_slice());
    lowercase(t.as_slice())
}

fn is(v: &Vec<char>, literal: &str) -> (r: bool)
    ensures
        r == (v@ == literal@),
{
    let l = chars_of(literal);
    seq_eq(v.as_slice(), l.as_slice())
}

pub open spec fn parse_presence_status_spec(value: Seq<char>) -> PresenceStatus {
    let n = normalized(value);
    if n == "chat"@ {
        PresenceStatus::Chat
    } else if n == "mobile"@ {
        PresenceStatus::Mobile
    } else {
        PresenceStatus::Offline
    }
}

/// A stored presence status; anything unknown reads as offline.
pub fn parse_presence_status(value: &str) -> (r: PresenceStatus)
    ensures
        r == parse_presence_status_spec(value@),
{
    let n = normalize(value);
    if is(&n, "chat") {
        PresenceStatus::Chat
    } else if is(&n, "mobile") {
        PresenceStatus::Mobile
    } else {
        PresenceStatus::Offline
    }
}

pub open spec fn parse_startup_status_spec(value: Seq<char>) -> StartupStatus {
    let n = normalized(value);
    if n == "chat"@ {
        StartupStatus::Chat
    } else if n == "offline"@ {
        StartupStatus::Offline
    } else if n == "mobile"@ {
        StartupStatus::Mobile
    } else {
        StartupStatus::Last
    }
}

/// A stored startup status; anything unknown reads as "last".
pub fn parse_startup_status(value: &str) -> (r: StartupStatus)
    ensures
        r == parse_startup_status_spec(value@),
{
    let n = normalize(value);
    if is(&n, "chat") {
        StartupStatus::Chat
    } else if is(&n, "offline") {
        StartupStatus::Offline
    } else if is(&n, "mobile") {
        StartupStatus::Mobile
    } else {
        StartupStatus::Last
    }
}

pub open spec fn parse_bool_spec(value: Seq<char>) -> bool {
    let n = normalized(value);
    n == "true"@ || n == "1"@ || n == "yes"@ || n == "on"@
}

/// A stored flag: `true`, `1`, `yes` and `on` (in any case) are set; anything
/// else is not.
pub fn parse_bool(value: &str) -> (r: bool)
    ensures
        r == parse_bool_spec(value@),
{
    let n = normalize(value);
    is(&n, "true") || is(&n, "1") || is(&n, "yes") || is(&n, "on")
}

pub open spec fn clamp_delay_spec(delay_ms: u32) -> u32 {
    if delay_ms > 10_000 {
        10_000
    } else {
        delay_ms
    }
}

/// The auto-accept delay, at most ten seconds.
pub fn clamp_auto_accept_delay(delay_ms: u32) -> (r: u32)
    ensures
        r == clamp_delay_spec(delay_ms),
{
    if delay_ms > 10_000 {
        10_000
    } else {
        delay_ms
    }
}

pub open spec fn startup_status_text_spec(status: StartupStatus) -> Seq<char> {
    match status {
        StartupStatus::Chat => "chat"@,
        StartupStatus::Offline => "offline"@,
        StartupStatus::Mobile => "mobile"@,
        StartupStatus::Last => "last"@,
    }
}

pub fn startup_status_text(status: StartupStatus) -> (r: &'static str)
    ensures
        r@ == startup_status_text_spec(status),
{
    match status {
        StartupStatus::Chat => "chat",
        StartupStatus::Offline => "offline",
        StartupStatus::Mobile => "mobile",
        StartupStatus::Last => "last",
    }
}

pub open spec fn str_opt_view(o: Option<&str>) -> Option<Seq<char>> {
    match o {
        Some(s) => Some(s@),
        None => None,
    }
}

fn setting(file: &str, value: &str) -> (r: StoredSetting)
    ensures
        r.file@ == file@,
        r.bytes@ == encode_utf8(value@),
{
    let bytes = value.as_bytes();
    let mut v: Vec<u8> = Vec::new();
    let mut i: usize = 0;
    while i < bytes.len()
        invariant
            i <= bytes@.len(),
            v@ == bytes@.take(i as int),
        decreases bytes@.len() - i,
    {
        v.push(bytes[i]);
        assert(bytes@.take(i + 1) =~= bytes@.take(i as int).push(bytes@[i as int]));
        i += 1;
    }
    assert(bytes@.take(bytes@.len() as int) =~= bytes@);
    StoredSetting { file: file.to_owned(), bytes: v }
}

/// The startup status from the stored `startupStatus` text ("last" when
/// nothing is stored).
pub fn read_startup_status(stored: Option<&str>) -> (r: StartupStatus)
    ensures
        r == match str_opt_view(stored) {
            Some(v) => parse_startup_status_spec(v),
            None => StartupStatus::Last,
        },
{
    match stored {
        Some(v) => parse_startup_status(v),
        None => StartupStatus::Last,
    }
}

pub fn write_startup_status(status: StartupStatus) -> (r: StoredSetting)
    ensures
        r.file@ == "startupStatus"@,
        r.bytes@ == encode_utf8(startup_status_text_spec(status)),
{
    setting("startupStatus", startup_status_text(status))
}

/// The session status from the stored `status` text (offline when nothing is
/// stored).
pub fn read_session_status(stored: Option<&str>) -> (r: PresenceStatus)
    ensures
        r == match str_opt_view(stored) {
            Some(v) => parse_presence_status_spec(v),
            None => PresenceStatus::Offline,
        },
{
    match stored {
        Some(v) => parse_presence_status(v),
        None => PresenceStatus::Offline,
    }
}

pub fn write_session_status(status: PresenceStatus) -> (r: StoredSetting)
    ensures
        r.file@ == "status"@,
        r.bytes@ == encode_utf8(crate::models::xmpp_show(status)),
{
    setting("status", status.as_xmpp())
}

pub open spec fn flag_text(enabled: bool) -> Seq<char> {
    if enabled {
        "true"@
    } else {
        "false"@
    }
}

fn flag_str(enabled: bool) -> (r: &'static str)
    ensures
        r@ == flag_text(enabled),
{
    if enabled {
        "true"
    } else {
        "false"
    }
}

/// Whether the helper friend is shown (shown when nothing is stored).
pub fn read_helper_friend(stored: Option<&str>) -> (r: bool)
    ensures
        r == match str_opt_view(stored) {
            Some(v) => parse_bool_spec(v),
            None => true,
        },
{
    match stored {
        Some(v) => parse_bool(v),
        None => true,
    }
}

pub fn write_helper_friend(enabled: bool) -> (r: StoredSetting)
    ensures
        r.file@ == "helperFriend"@,
        r.bytes@ == encode_utf8(flag_text(enabled)),
{
    setting("helperFriend", flag_str(enabled))
}

/// Whether ready checks are accepted automatically (off when nothing is
/// stored).
pub fn read_auto_accept(stored: Option<&str>) -> (r: bool)
    ensures
        r == match str_opt_view(stored) {
            Some(v) => parse_bool_spec(v),
            None => false,
        },
{
    match stored {
        Some(v) => parse_bool(v),
        None => false,
    }
}

pub fn write_auto_accept(enabled: bool) -> (r: StoredSetting)
    ensures
        r.file@ == "autoAccept"@,
        r.bytes@ == encode_utf8(flag_text(enabled)),
{
    setting("autoAccept", flag_str(enabled))
}

/// The auto-accept delay from the stored text: a decimal number of
/// milliseconds, at most ten seconds; two seconds when nothing usable is
/// stored.
pub fn read_auto_accept_delay_ms(stored: Option<&str>) -> (r: u32)
    ensures
        r == match str_opt_view(stored) {
            Some(v) => match parse_u32(trim(v)) {
                Some(d) => clamp_delay_spec(d),
                None => 2_000,
            },
            None => 2_000,
        },
{
    match stored {
        Some(v) => {
            let t = trim_str(v);
            match parse_u32_str(t.as_str()) {
                Some(d) => clamp_auto_accept_delay(d),
                None => 2_000,
            }
        },
        None => 2_000,
    }
}

pub fn write_auto_accept_delay_ms(delay_ms: u32) -> (r: StoredSetting)
    ensures
        r.file@ == "autoAcceptDelayMs"@,
        r.bytes@ == encode_utf8(crate::text::decimal(clamp_delay_spec(delay_ms) as nat)),
{
    let d = clamp_auto_accept_delay(delay_ms);
    let text = crate::text::decimal_string(d as u64);
    setting("autoAcceptDelayMs", text.as_str())
}

/// The Discord webhook URL, trimmed (empty when nothing is stored).
pub fn read_discord_webhook_url(stored: Option<&str>) -> (r: String)
    ensures
        r@ == match str_opt_view(stored) {
            Some(v) => trim(v),
            None => Seq::<char>::empty(),
        },
{
    match stored {
        Some(v) => trim_str(v),
        None => String::new(),
    }
}

pub fn write_discord_webhook_url(url: &str) -> (r: StoredSetting)
    ensures
        r.file@ == "discordWebhookUrl"@,
        r.bytes@ == encode_utf8(trim(url@)),
{
    let t = trim_str(url);
    setting("discordWebhookUrl", t.as_str())
}

/// A webhook URL stored by `write_discord_webhook_url` reads back by
/// `read_discord_webhook_url` as the trimmed URL, which trimming leaves as
/// it is.
pub proof fn lemma_webhook_url_round_trip(url: Seq<char>)
    ensures
        trim(decode_utf8(encode_utf8(trim(url)))) == trim(url),
        trim(trim(url)) == trim(url),
{
    encode_utf8_decode_utf8(trim(url));
    crate::text::lemma_trim_idempotent(url);
}

/// The cached localhost certificate, stored as given.
pub fn write_certificate(bytes: &[u8]) -> (r: StoredSetting)
    ensures
        r.file@ == "localhostCert.pfx"@,
        r.bytes@ == bytes@,
{
    let mut v: Vec<u8> = Vec::new();
    let mut i: usize = 0;
    while i < bytes.len()
        invariant
            i <= bytes@.len(),
            v@ == bytes@.take(i as int),
        decreases bytes@.len() - i,
    {
        v.push(bytes[i]);
        assert(bytes@.take(i + 1) =~= bytes@.take(i as int).push(bytes@[i as int]));
        i += 1;
    }
    assert(bytes@.take(bytes@.len() as int) =~= bytes@);
    StoredSetting { file: "localhostCert.pfx".to_owned(), bytes: v }
}

// ---------------------------------------------------------------------------
// Stored settings read back
// ---------------------------------------------------------------------------

/// A word of lower-case letters and digits reads as itself.
proof fn lemma_plain_word(s: Seq<char>)
    requires
        s.len() > 0,
        forall|i: int| 0 <= i < s.len() ==> is_ascii_lower(#[trigger] s[i]) || is_ascii_digit(s[i]),
    ensures
        normalized(s) == s,
{
    assert(trim_start(s) == s);
    assert(trim_end(s) == s);
    assert(lower_seq(s) =~= s);
}

/// What is stored for the session status, the startup status, a flag or the
/// auto-accept delay reads back as the value stored (the delay as clamped).
pub proof fn lemma_settings_round_trip(status: PresenceStatus, startup: StartupStatus, flag: bool, delay_ms: u32)
    ensures
        parse_presence_status_spec(decode_utf8(encode_utf8(crate::models::xmpp_show(status)))) == status,
        parse_startup_status_spec(decode_utf8(encode_utf8(startup_status_text_spec(startup)))) == startup,
        parse_bool_spec(decode_utf8(encode_utf8(flag_text(flag)))) == flag,
        parse_u32(trim(decode_utf8(encode_utf8(decimal(clamp_delay_spec(delay_ms) as nat))))) == Some(
            clamp_delay_spec(delay_ms),
        ),
{
    reveal_strlit("chat");
    reveal_strlit("offline");
    reveal_strlit("mobile");
    reveal_strlit("last");
    reveal_strlit("true");
    reveal_strlit("false");
    reveal_strlit("1");
    reveal_strlit("yes");
    reveal_strlit("on");
    encode_utf8_decode_utf8(crate::models::xmpp_show(status));
    encode_utf8_decode_utf8(startup_status_text_spec(startup));
    encode_utf8_decode_utf8(flag_text(flag));
    lemma_plain_word(crate::models::xmpp_show(status));
    lemma_plain_word(startup_status_text_spec(startup));
    lemma_plain_word(flag_text(flag));
    let d = clamp_delay_spec(delay_ms);
    let text = decimal(d as nat);
    encode_utf8_decode_utf8(text);
    lemma_decimal_digits(d as nat);
    assert(trim_start(text) == text);
    assert(trim_end(text) == text);
    assert(text[0] != '+');
}

} // verus!
