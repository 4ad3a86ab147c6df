//! The service's state as the control panel sees and changes it: settings,
//! the running proxy, connection health and the recent log.
use vstd::prelude::*;

use crate::config_proxy::PatchedChatServer;
use crate::external::now_time_of_day;
use crate::launch::{
    candidate_views, ensure_riot_client, first_existing, launch_params_valid, opt_view,
    validate_launch_params, LaunchError,
};
use crate::models::{
    game_label, xmpp_show, AppSnapshot, ConnectionHealth, HealthState, HealthStep, LaunchGame,
    LogCategory, LogEntry, LogLevel, PreflightCheck, PreflightReport, PresenceStatus, StartupStatus,
    StreamEvent,
};
use crate::helper::{auto_accept_state_for, HelperSettings, SettingsChange};
use crate::persistence::clamp_delay_spec;
use vstd::utf8::{decode_utf8, encode_utf8};
use crate::presence::opt_chars;
use crate::session::Live;
use crate::text::{concat2, decimal, decimal_string, owned, push_str, trim, trim_str};

verus! {

// ---------------------------------------------------------------------------
// The recent log
// ---------------------------------------------------------------------------

/// How many log lines are kept.
pub const LOG_BUFFER_LIMIT: usize = 240;

/// How many stream events are kept.
pub const STREAM_EVENT_BUFFER_LIMIT: usize = 800;

/// The last `limit` items of `s` (all of them where there are fewer).
pub open spec fn recent<T>(s: Seq<T>, limit: nat) -> Seq<T> {
    if s.len() > limit {
        s.skip(s.len() - limit)
    } else {
        s
    }
}

/// Drops the oldest log lines beyond `LOG_BUFFER_LIMIT`.
pub fn keep_recent(logs: &mut Vec<LogEntry>)
    ensures
        final(logs)@ == recent(old(logs)@, LOG_BUFFER_LIMIT as nat),
{
    if logs.len() > LOG_BUFFER_LIMIT {
        let extra = logs.len() - LOG_BUFFER_LIMIT;
        let tail = logs.split_off(extra);
        *logs = tail;
    }
}

/// Drops the oldest stream events beyond `STREAM_EVENT_BUFFER_LIMIT`.
pub fn keep_recent_stream_events(events: &mut Vec<StreamEvent>)
    ensures
        final(events)@ == recent(old(events)@, STREAM_EVENT_BUFFER_LIMIT as nat),
{
    if events.len() > STREAM_EVENT_BUFFER_LIMIT {
        let extra = events.len() - STREAM_EVENT_BUFFER_LIMIT;
        let tail = events.split_off(extra);
        *events = tail;
    }
}

/// A log line as the contracts speak of it: its category, level and
/// message (its time comes from the clock; `log_entry` states its shape).
pub open spec fn line_of(e: LogEntry) -> (LogCategory, LogLevel, Seq<char>) {
    (e.category, e.level, e.message@)
}

pub open spec fn lines(v: Seq<LogEntry>) -> Seq<(LogCategory, LogLevel, Seq<char>)> {
    v.map_values(|e: LogEntry| line_of(e))
}

/// The log after one more line, oldest lines dropped beyond the limit.
pub open spec fn logged(
    before: Seq<LogEntry>,
    after: Seq<LogEntry>,
    category: LogCategory,
    level: LogLevel,
    message: Seq<char>,
) -> bool {
    lines(after) == recent(lines(before).push((category, level, message)), LOG_BUFFER_LIMIT as nat)
}

/// The log never holds more than `LOG_BUFFER_LIMIT` lines, and a line just
/// added is its last.
pub proof fn lemma_log_bounded(
    before: Seq<LogEntry>,
    after: Seq<LogEntry>,
    category: LogCategory,
    level: LogLevel,
    message: Seq<char>,
)
    requires
        logged(before, after, category, level, message),
    ensures
        after.len() <= LOG_BUFFER_LIMIT,
        after.len() > 0,
        line_of(after.last()) == (category, level, message),
{
    let l = lines(before).push((category, level, message));
    assert(lines(after).len() == after.len());
    assert(lines(after)[after.len() - 1] == line_of(after[after.len() - 1]));
    if l.len() > LOG_BUFFER_LIMIT {
        assert(recent(l, LOG_BUFFER_LIMIT as nat)[LOG_BUFFER_LIMIT - 1] == l[l.len() - 1]);
    }
}

/// A log line stamped with the current time of day.
pub fn log_entry(category: LogCategory, level: LogLevel, message: String) -> (r: LogEntry)
    ensures
        line_of(r) == (category, level, message@),
        crate::external::is_time_of_day(r.timestamp@),
{
    LogEntry { timestamp: now_time_of_day(), category, level, message }
}

/// A stream event stamped with the current time of day.
pub fn stream_event(direction: &str, bytes: usize, preview: String) -> (r: StreamEvent)
    ensures
        r.direction@ == direction@,
        r.bytes == bytes,
        r.preview@ == preview@,
        crate::external::is_time_of_day(r.timestamp@),
{
    StreamEvent { timestamp: now_time_of_day(), direction: owned(direction), bytes, preview }
}

fn append_log(logs: &mut Vec<LogEntry>, category: LogCategory, level: LogLevel, message: String)
    ensures
        logged(old(logs)@, final(logs)@, category, level, message@),
{
    let ghost before = logs@;
    let e = log_entry(category, level, message);
    logs.push(e);
    let ghost pushed = logs@;
    keep_recent(logs);
    proof {
        assert(lines(pushed) =~= lines(before).push(line_of(e)));
        if pushed.len() > LOG_BUFFER_LIMIT {
            assert(lines(pushed.skip(pushed.len() - LOG_BUFFER_LIMIT)) =~= lines(pushed).skip(
                lines(pushed).len() - LOG_BUFFER_LIMIT,
            ));
        }
    }
}

// ---------------------------------------------------------------------------
// The state
// ---------------------------------------------------------------------------

/// What to start: which game, its patchline and the parameters passed on.
pub struct StartOptions {
    pub game: LaunchGame,
    pub game_patchline: String,
    pub riot_client_params: Option<String>,
    pub game_params: Option<String>,
    pub launch_game: bool,
}

/// A started proxy: whether it still runs, its ports, the Riot chat server
/// it found, its connections and what it launched.
pub struct ServiceRuntime {
    pub running: bool,
    pub chat_port: u16,
    pub config_port: u16,
    pub riot_chat: Option<PatchedChatServer>,
    pub active_connections: usize,
    pub reconnect_attempts: u32,
    pub riot_client_path: Option<String>,
    pub active_game: LaunchGame,
}

pub struct AppState {
    pub runtime: Option<ServiceRuntime>,
    pub enabled: bool,
    pub safe_mode: bool,
    pub helper_friend: bool,
    pub auto_accept: bool,
    pub auto_accept_delay_ms: u32,
    pub auto_accept_state: String,
    pub discord_webhook_url: String,
    pub status: PresenceStatus,
    pub startup_status: StartupStatus,
    pub connect_to_muc: bool,
    pub health: ConnectionHealth,
    pub logs: Vec<LogEntry>,
    pub stream_events: Vec<StreamEvent>,
}

/// The presence status a session starts with: the startup preference, or
/// the last session's status where the preference is to keep it.
pub open spec fn session_status_for(startup: StartupStatus, last: PresenceStatus) -> PresenceStatus {
    match startup {
        StartupStatus::Chat => PresenceStatus::Chat,
        StartupStatus::Offline => PresenceStatus::Offline,
        StartupStatus::Mobile => PresenceStatus::Mobile,
        StartupStatus::Last => last,
    }
}

pub open spec fn string_opt_view(o: Option<String>) -> Option<Seq<char>> {
    match o {
        Some(s) => Some(s@),
        None => None,
    }
}

fn opt_str(o: &Option<String>) -> (r: Option<&str>)
    ensures
        opt_view(r) == string_opt_view(*o),
{
    match o {
        Some(s) => Some(s.as_str()),
        None => None,
    }
}

/// Why a start was refused before anything was started.
pub enum StartError {
    AlreadyRunning,
    Launch(LaunchError),
}

/// The count of open connections after one more opens (wrapping, as an
/// atomic counter does).
pub open spec fn count_after_open(n: usize) -> usize {
    if n == usize::MAX {
        0
    } else {
        (n + 1) as usize
    }
}

/// The count of open connections after one closes (wrapping).
pub open spec fn count_after_close(n: usize) -> usize {
    if n == 0 {
        usize::MAX
    } else {
        (n - 1) as usize
    }
}

/// A connection that opens and then closes leaves the count of open
/// connections as it was.
pub proof fn lemma_open_then_close_restores_count(n: usize)
    ensures
        count_after_close(count_after_open(n)) == n,
{
}

/// Everything of the state but the log is as it was.
pub open spec fn same_but_logs(a: AppState, b: AppState) -> bool {
    &&& a.runtime == b.runtime
    &&& a.enabled == b.enabled
    &&& a.safe_mode == b.safe_mode
    &&& a.helper_friend == b.helper_friend
    &&& a.auto_accept == b.auto_accept
    &&& a.auto_accept_delay_ms == b.auto_accept_delay_ms
    &&& a.auto_accept_state@ == b.auto_accept_state@
    &&& a.discord_webhook_url@ == b.discord_webhook_url@
    &&& a.status == b.status
    &&& a.startup_status == b.startup_status
    &&& a.connect_to_muc == b.connect_to_muc
    &&& a.health == b.health
    &&& a.stream_events == b.stream_events
}

impl AppState {
    /// The state at launch, from the stored settings: masking on, safe mode
    /// off, lobby chat passed through, no proxy running.
    pub fn load(
        startup_status: StartupStatus,
        last_session_status: PresenceStatus,
        helper_friend: bool,
        auto_accept: bool,
        auto_accept_delay_ms: u32,
        discord_webhook_url: String,
    ) -> (r: AppState)
        ensures
            r.runtime is None,
            r.enabled,
            !r.safe_mode,
            r.helper_friend == helper_friend,
            r.auto_accept == auto_accept,
            r.auto_accept_delay_ms == auto_accept_delay_ms,
            r.auto_accept_state@ == (if auto_accept {
                "Waiting for League Client"@
            } else {
                "Disabled"@
            }),
            r.discord_webhook_url@ == discord_webhook_url@,
            r.status == session_status_for(startup_status, last_session_status),
            r.startup_status == startup_status,
            r.connect_to_muc,
            r.health.is_initial(),
            r.logs@.len() == 0,
            r.stream_events@.len() == 0,
    {
        let status = match startup_status {
            StartupStatus::Chat => PresenceStatus::Chat,
            StartupStatus::Offline => PresenceStatus::Offline,
            StartupStatus::Mobile => PresenceStatus::Mobile,
            StartupStatus::Last => last_session_status,
        };
        AppState {
            runtime: None,
            enabled: true,
            safe_mode: false,
            helper_friend,
            auto_accept,
            auto_accept_delay_ms,
            auto_accept_state: if auto_accept {
                owned("Waiting for League Client")
            } else {
                owned("Disabled")
            },
            discord_webhook_url,
            status,
            startup_status,
            connect_to_muc: true,
            health: ConnectionHealth::new(),
            logs: Vec::new(),
            stream_events: Vec::new(),
        }
    }

    /// Whether a proxy runs.
    pub open spec fn is_running(&self) -> bool {
        self.runtime matches Some(rt) && rt.running
    }

    pub fn is_active(&self) -> (r: bool)
        ensures
            r == self.is_running(),
    {
        match &self.runtime {
            Some(rt) => rt.running,
            None => false,
        }
    }

    /// Forgets a proxy that has stopped on its own.
    pub fn clear_stopped_runtime(&mut self)
        ensures
            (old(self).runtime matches Some(rt) && !rt.running) ==> final(self).runtime is None,
            !(old(self).runtime matches Some(rt) && !rt.running) ==> final(self).runtime
                == old(self).runtime,
            final(self).health == old(self).health,
            final(self).logs == old(self).logs,
    {
        let stopped = match &self.runtime {
            Some(rt) => !rt.running,
            None => false,
        };
        if stopped {
            self.runtime = None;
        }
    }

    fn push_log(&mut self, message: &str)
        ensures
            logged(old(self).logs@, final(self).logs@, LogCategory::System, LogLevel::Info, message@),
            same_but_logs(*old(self), *final(self)),
    {
        append_log(&mut self.logs, LogCategory::System, LogLevel::Info, owned(message));
    }

    /// Adds a warning to the log.
    pub fn note_warning(&mut self, message: String)
        ensures
            logged(old(self).logs@, final(self).logs@, LogCategory::System, LogLevel::Warn, message@),
            same_but_logs(*old(self), *final(self)),
    {
        append_log(&mut self.logs, LogCategory::System, LogLevel::Warn, message);
    }

    /// Adds a line of another part of the service to the log.
    pub fn record_log(&mut self, category: LogCategory, level: LogLevel, message: String)
        ensures
            logged(old(self).logs@, final(self).logs@, category, level, message@),
            same_but_logs(*old(self), *final(self)),
    {
        append_log(&mut self.logs, category, level, message);
    }

    /// Adds a stream event, dropping the oldest beyond the limit.
    pub fn record_stream_event(&mut self, event: StreamEvent)
        ensures
            final(self).stream_events@ == recent(
                old(self).stream_events@.push(event),
                STREAM_EVENT_BUFFER_LIMIT as nat,
            ),
            final(self).logs == old(self).logs,
            final(self).health == old(self).health,
            final(self).runtime == old(self).runtime,
    {
        self.stream_events.push(event);
        keep_recent_stream_events(&mut self.stream_events);
    }

    /// Stops the proxy, if one was started: it is told to stop, forgotten,
    /// and the health starts over.
    pub fn stop(&mut self) -> (r: bool)
        ensures
            r == old(self).runtime is Some,
            final(self).runtime is None,
            r ==> final(self).health.is_initial() && logged(
                old(self).logs@,
                final(self).logs@,
                LogCategory::System,
                LogLevel::Info,
                "Stopped Ghosty proxy"@,
            ),
            !r ==> final(self).health == old(self).health && final(self).logs == old(self).logs,
    {
        if self.runtime.is_some() {
            self.runtime = None;
            self.push_log("Stopped Ghosty proxy");
            self.health = ConnectionHealth::new();
            true
        } else {
            false
        }
    }

    /// The checks a start makes before anything starts: a stopped proxy is
    /// forgotten; a running one refuses the start; the health starts over;
    /// the Riot Client must be found where a game is launched; the launch
    /// parameters must be valid. The Riot Client path found is given back.
    pub fn prepare_start(&mut self, options: &StartOptions, riot_client_candidates: &[(String, bool)]) -> (r: Result<Option<String>, StartError>)
        ensures
            !(old(self).runtime matches Some(rt) && !rt.running) ==> final(self).runtime
                == old(self).runtime,
            (old(self).runtime matches Some(rt) && !rt.running) ==> final(self).runtime is None,
            old(self).is_running() ==> (r matches Err(StartError::AlreadyRunning)) && final(self).health
                == old(self).health,
            !old(self).is_running() ==> final(self).health.is_initial(),
            !old(self).is_running() ==> match r {
                Ok(path) => (path matches Some(p) ==> first_existing(candidate_views(riot_client_candidates@)) == Some(p@))
                    && (path is None ==> first_existing(candidate_views(riot_client_candidates@)) is None)
                    && !(options.launch_game && path is None)
                    && launch_params_valid(
                        options.game,
                        options.game_patchline@,
                        string_opt_view(options.riot_client_params),
                        string_opt_view(options.game_params),
                    ),
                Err(StartError::AlreadyRunning) => false,
                Err(StartError::Launch(e)) => if options.launch_game && first_existing(
                    candidate_views(riot_client_candidates@),
                ) is None {
                    e == LaunchError::RiotClientNotFound
                } else {
                    crate::launch::launch_params_error(
                        options.game,
                        options.game_patchline@,
                        string_opt_view(options.riot_client_params),
                        string_opt_view(options.game_params),
                    ) == Some(e)
                },
            },
            final(self).logs == old(self).logs,
    {
        self.clear_stopped_runtime();
        if self.is_active() {
            return Err(StartError::AlreadyRunning);
        }
        self.health = ConnectionHealth::new();
        let found = crate::launch::riot_client_path(riot_client_candidates);
        if options.launch_game && found.is_none() {
            match ensure_riot_client(riot_client_candidates) {
                Ok(_) => {},
                Err(e) => return Err(StartError::Launch(e)),
            }
        }
        match validate_launch_params(
            options.game,
            options.game_patchline.as_str(),
            opt_str(&options.riot_client_params),
            opt_str(&options.game_params),
        ) {
            Ok(()) => Ok(found),
            Err(e) => Err(StartError::Launch(e)),
        }
    }
}

// ---------------------------------------------------------------------------
// Copies for the snapshot
// ---------------------------------------------------------------------------

pub open spec fn step_view(s: HealthStep) -> (Seq<char>, Seq<char>, HealthState, Seq<char>) {
    (s.key@, s.label@, s.state, s.detail@)
}

pub open spec fn health_view(h: ConnectionHealth) -> (
    (Seq<char>, Seq<char>, HealthState, Seq<char>),
    (Seq<char>, Seq<char>, HealthState, Seq<char>),
    (Seq<char>, Seq<char>, HealthState, Seq<char>),
    (Seq<char>, Seq<char>, HealthState, Seq<char>),
    (Seq<char>, Seq<char>, HealthState, Seq<char>),
    usize,
    u32,
) {
    (
        step_view(h.config_proxy),
        step_view(h.config_patched),
        step_view(h.chat_server),
        step_view(h.tls_connected),
        step_view(h.xmpp_active),
        h.active_connections,
        h.reconnect_attempts,
    )
}

pub open spec fn entry_view(e: LogEntry) -> (Seq<char>, LogCategory, LogLevel, Seq<char>) {
    (e.timestamp@, e.category, e.level, e.message@)
}

pub open spec fn event_view(e: StreamEvent) -> (Seq<char>, Seq<char>, usize, Seq<char>) {
    (e.timestamp@, e.direction@, e.bytes, e.preview@)
}

fn copy_step(s: &HealthStep) -> (r: HealthStep)
    ensures
        step_view(r) == step_view(*s),
{
    HealthStep { key: s.key.clone(), label: s.label.clone(), state: s.state, detail: s.detail.clone() }
}

pub fn copy_health(h: &ConnectionHealth) -> (r: ConnectionHealth)
    ensures
        health_view(r) == health_view(*h),
{
    ConnectionHealth {
        config_proxy: copy_step(&h.config_proxy),
        config_patched: copy_step(&h.config_patched),
        chat_server: copy_step(&h.chat_server),
        tls_connected: copy_step(&h.tls_connected),
        xmpp_active: copy_step(&h.xmpp_active),
        active_connections: h.active_connections,
        reconnect_attempts: h.reconnect_attempts,
    }
}

fn copy_logs(v: &Vec<LogEntry>) -> (r: Vec<LogEntry>)
    ensures
        r@.map_values(|e: LogEntry| entry_view(e)) == v@.map_values(|e: LogEntry| entry_view(e)),
{
    let mut r: Vec<LogEntry> = Vec::new();
    let mut i: usize = 0;
    while i < v.len()
        invariant
            i <= v@.len(),
            r@.len() == i,
            r@.map_values(|e: LogEntry| entry_view(e)) == v@.take(i as int).map_values(
                |e: LogEntry| entry_view(e),
            ),
        decreases v@.len() - i,
    {
        let e = &v[i];
        r.push(
            LogEntry {
                timestamp: e.timestamp.clone(),
                category: e.category,
                level: e.level,
                message: e.message.clone(),
            },
        );
        assert(entry_view(r@[i as int]) == entry_view(v@[i as int]));
        assert forall|k: int| 0 <= k < i implies entry_view(r@[k]) == entry_view(v@[k]) by {
            assert(r@.map_values(|e: LogEntry| entry_view(e))[k] == v@.take(i as int).map_values(|e: LogEntry| entry_view(e))[k]);
        }
        assert(r@.map_values(|e: LogEntry| entry_view(e)) =~= v@.take(i + 1).map_values(
            |e: LogEntry| entry_view(e),
        ));
        i += 1;
    }
    assert(v@.take(v@.len() as int) =~= v@);
    r
}

fn copy_events(v: &Vec<StreamEvent>) -> (r: Vec<StreamEvent>)
    ensures
        r@.map_values(|e: StreamEvent| event_view(e)) == v@.map_values(|e: StreamEvent| event_view(e)),
{
    let mut r: Vec<StreamEvent> = Vec::new();
    let mut i: usize = 0;
    while i < v.len()
        invariant
            i <= v@.len(),
            r@.len() == i,
            r@.map_values(|e: StreamEvent| event_view(e)) == v@.take(i as int).map_values(
                |e: StreamEvent| event_view(e),
            ),
        decreases v@.len() - i,
    {
        let e = &v[i];
        r.push(
            StreamEvent {
                timestamp: e.timestamp.clone(),
                direction: e.direction.clone(),
                bytes: e.bytes,
                preview: e.preview.clone(),
            },
        );
        assert(event_view(r@[i as int]) == event_view(v@[i as int]));
        assert forall|k: int| 0 <= k < i implies event_view(r@[k]) == event_view(v@[k]) by {
            assert(r@.map_values(|e: StreamEvent| event_view(e))[k] == v@.take(i as int).map_values(|e: StreamEvent| event_view(e))[k]);
        }
        assert(r@.map_values(|e: StreamEvent| event_view(e)) =~= v@.take(i + 1).map_values(
            |e: StreamEvent| event_view(e),
        ));
        i += 1;
    }
    assert(v@.take(v@.len() as int) =~= v@);
    r
}

fn copy_opt(o: &Option<String>) -> (r: Option<String>)
    ensures
        string_opt_view(r) == string_opt_view(*o),
{
    match o {
        Some(s) => Some(s.clone()),
        None => None,
    }
}

// ---------------------------------------------------------------------------
// Settings, the snapshot and the checks before a start
// ---------------------------------------------------------------------------

/// A setter's line in the log: `message`, logged as system information.
pub open spec fn flag_set(old_state: AppState, new_state: AppState, message: Seq<char>) -> bool {
    logged(old_state.logs@, new_state.logs@, LogCategory::System, LogLevel::Info, message)
}

pub open spec fn delay_text(d: u32) -> Seq<char> {
    "Auto accept delay set to "@ + decimal(d as nat) + "ms"@
}

/// A stored setting the control panel changes.
pub enum SettingUpdate {
    Status(PresenceStatus),
    HelperFriend(bool),
    AutoAccept(bool),
    AutoAcceptDelayMs(u32),
    DiscordWebhookUrl(String),
    StartupStatus(StartupStatus),
}

/// The file a setting is stored in, and the bytes stored.
pub open spec fn stored_for(u: SettingUpdate) -> (Seq<char>, Seq<u8>) {
    match u {
        SettingUpdate::Status(st) => ("status"@, encode_utf8(xmpp_show(st))),
        SettingUpdate::HelperFriend(b) => ("helperFriend"@, encode_utf8(crate::persistence::flag_text(b))),
        SettingUpdate::AutoAccept(b) => ("autoAccept"@, encode_utf8(crate::persistence::flag_text(b))),
        SettingUpdate::AutoAcceptDelayMs(d) => (
            "autoAcceptDelayMs"@,
            encode_utf8(decimal(clamp_delay_spec(d) as nat)),
        ),
        SettingUpdate::DiscordWebhookUrl(url) => ("discordWebhookUrl"@, encode_utf8(trim(url@))),
        SettingUpdate::StartupStatus(st) => (
            "startupStatus"@,
            encode_utf8(crate::persistence::startup_status_text_spec(st)),
        ),
    }
}

/// What a stored setting change does to the state: its field takes the
/// value (the delay clamped, the URL trimmed; the auto-accept state follows
/// auto accept), its line is logged, and nothing else changes.
pub open spec fn setting_applied(o: AppState, n: AppState, u: SettingUpdate) -> bool {
    match u {
        SettingUpdate::Status(st) => {
            &&& n.status == st
            &&& flag_set(o, n, "Presence target set to "@ + xmpp_show(st))
            &&& same_but_logs(AppState { status: o.status, ..n }, o)
        },
        SettingUpdate::HelperFriend(b) => {
            &&& n.helper_friend == b
            &&& flag_set(o, n, if b {
                "Helper friend enabled; it will appear after Riot sends a roster refresh"@
            } else {
                "Helper friend disabled"@
            })
            &&& same_but_logs(AppState { helper_friend: o.helper_friend, ..n }, o)
        },
        SettingUpdate::AutoAccept(b) => {
            &&& n.auto_accept == b
            &&& n.auto_accept_state@ == (if b {
                "Watching for ready check"@
            } else {
                "Disabled"@
            })
            &&& flag_set(o, n, if b {
                "Auto accept enabled"@
            } else {
                "Auto accept disabled"@
            })
            &&& same_but_logs(AppState { auto_accept: o.auto_accept, auto_accept_state: o.auto_accept_state, ..n }, o)
        },
        SettingUpdate::AutoAcceptDelayMs(d) => {
            &&& n.auto_accept_delay_ms == clamp_delay_spec(d)
            &&& flag_set(o, n, delay_text(clamp_delay_spec(d)))
            &&& same_but_logs(AppState { auto_accept_delay_ms: o.auto_accept_delay_ms, ..n }, o)
        },
        SettingUpdate::DiscordWebhookUrl(url) => {
            &&& n.discord_webhook_url@ == trim(url@)
            &&& flag_set(o, n, "Discord auto-accept webhook updated"@)
            &&& same_but_logs(AppState { discord_webhook_url: o.discord_webhook_url, ..n }, o)
        },
        SettingUpdate::StartupStatus(st) => {
            &&& n.startup_status == st
            &&& flag_set(o, n, "Saved startup status preference"@)
            &&& same_but_logs(AppState { startup_status: o.startup_status, ..n }, o)
        },
    }
}

/// The value a setting reads back as, from the text stored for it.
pub open spec fn reads_back(u: SettingUpdate, text: Seq<char>) -> bool {
    match u {
        SettingUpdate::Status(st) => crate::persistence::parse_presence_status_spec(text) == st,
        SettingUpdate::HelperFriend(b) => crate::persistence::parse_bool_spec(text) == b,
        SettingUpdate::AutoAccept(b) => crate::persistence::parse_bool_spec(text) == b,
        SettingUpdate::AutoAcceptDelayMs(d) => crate::text::parse_u32(trim(text)) == Some(clamp_delay_spec(d)),
        SettingUpdate::DiscordWebhookUrl(url) => trim(text) == trim(url@),
        SettingUpdate::StartupStatus(st) => crate::persistence::parse_startup_status_spec(text) == st,
    }
}

/// What is stored for a setting change reads back as the value the state
/// took (see `setting_applied`): a stored change survives a restart.
pub proof fn lemma_stored_setting_reads_back(u: SettingUpdate)
    ensures
        reads_back(u, decode_utf8(stored_for(u).1)),
{
    match u {
        SettingUpdate::Status(st) => crate::persistence::lemma_settings_round_trip(st, StartupStatus::Last, true, 0),
        SettingUpdate::HelperFriend(b) => crate::persistence::lemma_settings_round_trip(
            PresenceStatus::Chat,
            StartupStatus::Last,
            b,
            0,
        ),
        SettingUpdate::AutoAccept(b) => crate::persistence::lemma_settings_round_trip(
            PresenceStatus::Chat,
            StartupStatus::Last,
            b,
            0,
        ),
        SettingUpdate::AutoAcceptDelayMs(d) => crate::persistence::lemma_settings_round_trip(
            PresenceStatus::Chat,
            StartupStatus::Last,
            true,
            d,
        ),
        SettingUpdate::DiscordWebhookUrl(url) => crate::persistence::lemma_webhook_url_round_trip(url@),
        SettingUpdate::StartupStatus(st) => crate::persistence::lemma_settings_round_trip(
            PresenceStatus::Chat,
            st,
            true,
            0,
        ),
    }
}

impl SettingUpdate {
    /// The file and bytes to store for this change.
    pub fn stored_setting(&self) -> (r: crate::persistence::StoredSetting)
        ensures
            (r.file@, r.bytes@) == stored_for(*self),
    {
        match self {
            SettingUpdate::Status(st) => crate::persistence::write_session_status(*st),
            SettingUpdate::HelperFriend(b) => crate::persistence::write_helper_friend(*b),
            SettingUpdate::AutoAccept(b) => crate::persistence::write_auto_accept(*b),
            SettingUpdate::AutoAcceptDelayMs(d) => crate::persistence::write_auto_accept_delay_ms(*d),
            SettingUpdate::DiscordWebhookUrl(url) => crate::persistence::write_discord_webhook_url(url.as_str()),
            SettingUpdate::StartupStatus(st) => crate::persistence::write_startup_status(*st),
        }
    }
}

impl AppState {
    /// The presence status sent from now on (the caller has stored it).
    pub fn set_status(&mut self, status: PresenceStatus)
        ensures
            final(self).status == status,
            flag_set(*old(self), *final(self), "Presence target set to "@ + xmpp_show(status)),
            same_but_logs(AppState { status: old(self).status, ..*final(self) }, *old(self)),
    {
        self.status = status;
        let m = concat2("Presence target set to ", status.as_xmpp());
        self.push_log(m.as_str());
    }

    pub fn set_enabled(&mut self, enabled: bool)
        ensures
            final(self).enabled == enabled,
            flag_set(*old(self), *final(self), if enabled {
                "Presence masking enabled"@
            } else {
                "Presence masking disabled"@
            }),
            same_but_logs(AppState { enabled: old(self).enabled, ..*final(self) }, *old(self)),
    {
        self.enabled = enabled;
        self.push_log(
            if enabled {
                "Presence masking enabled"
            } else {
                "Presence masking disabled"
            },
        );
    }

    pub fn set_safe_mode(&mut self, safe_mode: bool)
        ensures
            final(self).safe_mode == safe_mode,
            flag_set(*old(self), *final(self), if safe_mode {
                "Safe mode enabled: chat is forwarded without presence rewriting"@
            } else {
                "Safe mode disabled: presence rewriting is active"@
            }),
            same_but_logs(AppState { safe_mode: old(self).safe_mode, ..*final(self) }, *old(self)),
    {
        self.safe_mode = safe_mode;
        self.push_log(
            if safe_mode {
                "Safe mode enabled: chat is forwarded without presence rewriting"
            } else {
                "Safe mode disabled: presence rewriting is active"
            },
        );
    }

    /// Whether the helper friend is shown (the caller has stored it).
    pub fn set_helper_friend(&mut self, helper_friend: bool)
        ensures
            final(self).helper_friend == helper_friend,
            flag_set(*old(self), *final(self), if helper_friend {
                "Helper friend enabled; it will appear after Riot sends a roster refresh"@
            } else {
                "Helper friend disabled"@
            }),
            same_but_logs(AppState { helper_friend: old(self).helper_friend, ..*final(self) }, *old(self)),
    {
        self.helper_friend = helper_friend;
        self.push_log(
            if helper_friend {
                "Helper friend enabled; it will appear after Riot sends a roster refresh"
            } else {
                "Helper friend disabled"
            },
        );
    }

    /// Whether ready checks are accepted automatically (the caller has
    /// stored it).
    pub fn set_auto_accept(&mut self, auto_accept: bool)
        ensures
            final(self).auto_accept == auto_accept,
            final(self).auto_accept_state@ == (if auto_accept {
                "Watching for ready check"@
            } else {
                "Disabled"@
            }),
            flag_set(*old(self), *final(self), if auto_accept {
                "Auto accept enabled"@
            } else {
                "Auto accept disabled"@
            }),
            same_but_logs(
                AppState { auto_accept: old(self).auto_accept, auto_accept_state: old(self).auto_accept_state, ..*final(self) },
                *old(self),
            ),
    {
        self.auto_accept = auto_accept;
        self.auto_accept_state = if auto_accept {
            owned("Watching for ready check")
        } else {
            owned("Disabled")
        };
        self.push_log(
            if auto_accept {
                "Auto accept enabled"
            } else {
                "Auto accept disabled"
            },
        );
    }

    /// The delay before a ready check is accepted, at most ten seconds (the
    /// caller has stored the value given back).
    pub fn set_auto_accept_delay_ms(&mut self, delay_ms: u32) -> (r: u32)
        ensures
            r == clamp_delay_spec(delay_ms),
            final(self).auto_accept_delay_ms == r,
            flag_set(*old(self), *final(self), delay_text(r)),
            same_but_logs(AppState { auto_accept_delay_ms: old(self).auto_accept_delay_ms, ..*final(self) }, *old(self)),
    {
        let d = crate::persistence::clamp_auto_accept_delay(delay_ms);
        self.auto_accept_delay_ms = d;
        let mut m = owned("Auto accept delay set to ");
        let n = decimal_string(d as u64);
        push_str(&mut m, n.as_str());
        push_str(&mut m, "ms");
        self.push_log(m.as_str());
        d
    }

    /// The Discord webhook told of automatic accepts, trimmed (the caller
    /// has stored the value given back).
    pub fn set_discord_webhook_url(&mut self, url: &str) -> (r: String)
        ensures
            r@ == trim(url@),
            final(self).discord_webhook_url@ == trim(url@),
            flag_set(*old(self), *final(self), "Discord auto-accept webhook updated"@),
            same_but_logs(AppState { discord_webhook_url: old(self).discord_webhook_url, ..*final(self) }, *old(self)),
    {
        let t = trim_str(url);
        self.discord_webhook_url = t.clone();
        self.push_log("Discord auto-accept webhook updated");
        t
    }

    pub fn set_connect_to_muc(&mut self, connect_to_muc: bool)
        ensures
            final(self).connect_to_muc == connect_to_muc,
            flag_set(*old(self), *final(self), if connect_to_muc {
                "Lobby chat passthrough enabled"@
            } else {
                "Lobby chat passthrough disabled"@
            }),
            same_but_logs(AppState { connect_to_muc: old(self).connect_to_muc, ..*final(self) }, *old(self)),
    {
        self.connect_to_muc = connect_to_muc;
        self.push_log(
            if connect_to_muc {
                "Lobby chat passthrough enabled"
            } else {
                "Lobby chat passthrough disabled"
            },
        );
    }

    /// The status a session starts with (the caller has stored it).
    pub fn set_startup_status(&mut self, startup_status: StartupStatus)
        ensures
            final(self).startup_status == startup_status,
            flag_set(*old(self), *final(self), "Saved startup status preference"@),
            same_but_logs(AppState { startup_status: old(self).startup_status, ..*final(self) }, *old(self)),
    {
        self.startup_status = startup_status;
        self.push_log("Saved startup status preference");
    }

    /// A setting change after the attempt to store it (`stored`): where it
    /// was stored, the state changes as the setter does (see
    /// `setting_applied`); where storing failed, nothing changes, not even
    /// the log, and the failure is given back.
    pub fn apply_stored(&mut self, update: SettingUpdate, stored: Result<(), String>) -> (r: Result<(), String>)
        ensures
            r == stored,
            stored is Err ==> *final(self) == *old(self),
            stored is Ok ==> setting_applied(*old(self), *final(self), update),
    {
        if stored.is_err() {
            return stored;
        }
        match update {
            SettingUpdate::Status(st) => self.set_status(st),
            SettingUpdate::HelperFriend(b) => self.set_helper_friend(b),
            SettingUpdate::AutoAccept(b) => self.set_auto_accept(b),
            SettingUpdate::AutoAcceptDelayMs(d) => {
                self.set_auto_accept_delay_ms(d);
            },
            SettingUpdate::DiscordWebhookUrl(url) => {
                self.set_discord_webhook_url(url.as_str());
            },
            SettingUpdate::StartupStatus(st) => self.set_startup_status(st),
        }
        stored
    }

    /// Records how a request to stop the Riot processes went, and gives it
    /// back.
    pub fn kill_riot_processes(&mut self, outcome: Result<(), String>) -> (r: Result<(), String>)
        ensures
            r == outcome,
            outcome is Ok ==> logged(old(self).logs@, final(self).logs@, LogCategory::System, LogLevel::Info, "Requested Riot process cleanup"@),
            outcome matches Err(e) ==> logged(old(self).logs@, final(self).logs@, LogCategory::System, LogLevel::Warn, "Unable to stop Riot processes: "@ + e@),
            same_but_logs(*old(self), *final(self)),
    {
        match &outcome {
            Ok(()) => self.push_log("Requested Riot process cleanup"),
            Err(e) => self.note_warning(concat2("Unable to stop Riot processes: ", e.as_str())),
        }
        outcome
    }

    /// What the control panel shows now. A running proxy's connection counts
    /// are copied into the health first; the health of a proxy that stopped
    /// on its own starts over. The Riot Client path is the running proxy's,
    /// else the one installed.
    pub fn snapshot(&mut self, installed_riot_client_path: Option<String>) -> (r: AppSnapshot)
        ensures
            ({
                let o = *old(self);
                let f = *final(self);
                &&& f.runtime == o.runtime
                &&& f.logs == o.logs
                &&& o.is_running() ==> health_view(f.health) == health_view(ConnectionHealth {
                    active_connections: o.runtime->0.active_connections,
                    reconnect_attempts: o.runtime->0.reconnect_attempts,
                    ..o.health
                })
                &&& (o.runtime matches Some(rt) && !rt.running) ==> f.health.is_initial()
                &&& o.runtime is None ==> f.health == o.health
                &&& r.running == o.is_running()
                &&& r.enabled == o.enabled
                &&& r.safe_mode == o.safe_mode
                &&& r.helper_friend == o.helper_friend
                &&& r.auto_accept == o.auto_accept
                &&& r.auto_accept_delay_ms == o.auto_accept_delay_ms
                &&& r.auto_accept_state@ == o.auto_accept_state@
                &&& r.discord_webhook_url@ == o.discord_webhook_url@
                &&& r.status == o.status
                &&& r.startup_status == o.startup_status
                &&& r.connect_to_muc == o.connect_to_muc
                &&& health_view(r.health) == health_view(f.health)
                &&& r.chat_port == (if o.is_running() { Some(o.runtime->0.chat_port) } else { None::<u16> })
                &&& r.config_port == (if o.is_running() { Some(o.runtime->0.config_port) } else { None::<u16> })
                &&& string_opt_view(r.riot_chat_host) == (if o.is_running() && o.runtime->0.riot_chat is Some {
                    Some(o.runtime->0.riot_chat->0.host@)
                } else {
                    None::<Seq<char>>
                })
                &&& r.riot_chat_port == (if o.is_running() && o.runtime->0.riot_chat is Some {
                    Some(o.runtime->0.riot_chat->0.port)
                } else {
                    None::<u16>
                })
                &&& string_opt_view(r.riot_client_path) == (if o.is_running() && o.runtime->0.riot_client_path is Some {
                    string_opt_view(o.runtime->0.riot_client_path)
                } else {
                    string_opt_view(installed_riot_client_path)
                })
                &&& r.active_game == (if o.is_running() { Some(o.runtime->0.active_game) } else { None::<LaunchGame> })
                &&& string_opt_view(r.active_game_label) == (if o.is_running() {
                    Some(game_label(o.runtime->0.active_game))
                } else {
                    None::<Seq<char>>
                })
                &&& r.logs@.map_values(|e: LogEntry| entry_view(e)) == o.logs@.map_values(|e: LogEntry| entry_view(e))
                &&& r.stream_events@.map_values(|e: StreamEvent| event_view(e)) == o.stream_events@.map_values(
                    |e: StreamEvent| event_view(e),
                )
            }),
    {
        let running = self.is_active();
        match &self.runtime {
            Some(rt) => {
                if rt.running {
                    self.health.active_connections = rt.active_connections;
                    self.health.reconnect_attempts = rt.reconnect_attempts;
                } else {
                    self.health = ConnectionHealth::new();
                }
            },
            None => {},
        }
        let (chat_port, config_port, riot_chat_host, riot_chat_port, path, game) = match &self.runtime {
            Some(rt) if rt.running => {
                let (host, port) = match &rt.riot_chat {
                    Some(server) => (Some(server.host.clone()), Some(server.port)),
                    None => (None, None),
                };
                let path = match &rt.riot_client_path {
                    Some(p) => Some(p.clone()),
                    None => installed_riot_client_path,
                };
                (Some(rt.chat_port), Some(rt.config_port), host, port, path, Some(rt.active_game))
            },
            _ => (None, None, None, None, installed_riot_client_path, None),
        };
        let label = match game {
            Some(g) => Some(owned(g.label())),
            None => None,
        };
        AppSnapshot {
            running,
            enabled: self.enabled,
            safe_mode: self.safe_mode,
            helper_friend: self.helper_friend,
            auto_accept: self.auto_accept,
            auto_accept_delay_ms: self.auto_accept_delay_ms,
            auto_accept_state: self.auto_accept_state.clone(),
            discord_webhook_url: self.discord_webhook_url.clone(),
            status: self.status,
            startup_status: self.startup_status,
            connect_to_muc: self.connect_to_muc,
            health: copy_health(&self.health),
            chat_port,
            config_port,
            riot_chat_host,
            riot_chat_port,
            riot_client_path: path,
            active_game: game,
            active_game_label: label,
            logs: copy_logs(&self.logs),
            stream_events: copy_events(&self.stream_events),
        }
    }

    /// The report of the checks before a start: ready when every check
    /// passed.
    pub fn preflight(&self, checks: Vec<PreflightCheck>) -> (r: PreflightReport)
        ensures
            r.checks@ == checks@,
            r.ok == (forall|i: int| 0 <= i < checks@.len() ==> checks@[i].ok),
    {
        let mut ok = true;
        let mut i: usize = 0;
        while i < checks.len()
            invariant
                i <= checks@.len(),
                ok == (forall|k: int| 0 <= k < i ==> checks@[k].ok),
            decreases checks@.len() - i,
        {
            ok = ok && checks[i].ok;
            i += 1;
        }
        PreflightReport { ok, checks }
    }
}

// ---------------------------------------------------------------------------
// The running proxy
// ---------------------------------------------------------------------------

/// How a proxied connection ended with an error.
pub enum ConnectionError {
    /// The client closed the connection cleanly.
    CleanClose,
    /// Any other failure, with its description.
    Failed(String),
}

pub open spec fn connection_error_text(e: ConnectionError) -> Seq<char> {
    match e {
        ConnectionError::CleanClose => "connection closed cleanly"@,
        ConnectionError::Failed(t) => t@,
    }
}

impl ConnectionError {
    pub fn text(&self) -> (r: String)
        ensures
            r@ == connection_error_text(*self),
    {
        match self {
            ConnectionError::CleanClose => owned("connection closed cleanly"),
            ConnectionError::Failed(t) => t.clone(),
        }
    }
}

/// Records a proxied connection that ended with an error, giving the log
/// line to send. After a stop the line only says so. A clean close only
/// says so. Any other error counts as a reconnect: the counter goes up (and
/// wraps), both connection steps turn to warnings and the health shows the
/// new count.
pub fn record_proxy_connection_error(
    running: bool,
    reconnect_attempts: &mut u32,
    health: &mut ConnectionHealth,
    error: &ConnectionError,
) -> (r: LogEntry)
    ensures
        !running ==> {
            &&& line_of(r) == (LogCategory::Chat, LogLevel::Info, "Chat proxy connection closed after Ghosty stopped: "@
                + connection_error_text(*error))
            &&& *final(reconnect_attempts) == *old(reconnect_attempts)
            &&& *final(health) == *old(health)
        },
        running && *error is CleanClose ==> {
            &&& line_of(r) == (LogCategory::Chat, LogLevel::Info, "Chat proxy connection closed cleanly"@)
            &&& *final(reconnect_attempts) == *old(reconnect_attempts)
            &&& *final(health) == *old(health)
        },
        running && *error is Failed ==> {
            &&& line_of(r) == (LogCategory::Chat, LogLevel::Warn, "Chat proxy connection closed: "@
                + connection_error_text(*error))
            &&& *final(reconnect_attempts) == (if *old(reconnect_attempts) == u32::MAX {
                0
            } else {
                (*old(reconnect_attempts) + 1) as u32
            })
            &&& step_view(final(health).tls_connected) == (
                old(health).tls_connected.key@,
                old(health).tls_connected.label@,
                HealthState::Warning,
                "Last connection closed"@,
            )
            &&& step_view(final(health).xmpp_active) == (
                old(health).xmpp_active.key@,
                old(health).xmpp_active.label@,
                HealthState::Warning,
                "Waiting for Riot Client reconnect"@,
            )
            &&& final(health).reconnect_attempts == *final(reconnect_attempts)
            &&& final(health).config_proxy == old(health).config_proxy
            &&& final(health).config_patched == old(health).config_patched
            &&& final(health).chat_server == old(health).chat_server
            &&& final(health).active_connections == old(health).active_connections
        },
{
    let text = error.text();
    if !running {
        return log_entry(
            LogCategory::Chat,
            LogLevel::Info,
            concat2("Chat proxy connection closed after Ghosty stopped: ", text.as_str()),
        );
    }
    if let ConnectionError::CleanClose = error {
        return log_entry(LogCategory::Chat, LogLevel::Info, owned("Chat proxy connection closed cleanly"));
    }
    *reconnect_attempts = reconnect_attempts.wrapping_add(1);
    health.tls_connected.set(HealthState::Warning, "Last connection closed");
    health.xmpp_active.set(HealthState::Warning, "Waiting for Riot Client reconnect");
    health.reconnect_attempts = *reconnect_attempts;
    log_entry(
        LogCategory::Chat,
        LogLevel::Warn,
        concat2("Chat proxy connection closed: ", text.as_str()),
    )
}

/// A proxied connection that is open: its end takes it off the count.
pub struct ActiveConnectionGuard {
    pub active_connections: usize,
    pub health: ConnectionHealth,
}

impl ActiveConnectionGuard {
    /// The connection ends: the count goes down (and wraps below zero) and
    /// the health shows it; once none is left, connection steps still shown
    /// active are shown waiting again.
    pub fn close(&mut self)
        ensures
            final(self).active_connections == (if old(self).active_connections == 0 {
                usize::MAX
            } else {
                (old(self).active_connections - 1) as usize
            }),
            final(self).health.active_connections == final(self).active_connections,
            final(self).active_connections == 0 && old(self).health.tls_connected.state
                == HealthState::Active ==> step_view(final(self).health.tls_connected) == (
                old(self).health.tls_connected.key@,
                old(self).health.tls_connected.label@,
                HealthState::Ready,
                "Waiting for Riot Client connection"@,
            ),
            !(final(self).active_connections == 0 && old(self).health.tls_connected.state
                == HealthState::Active) ==> final(self).health.tls_connected == old(self).health.tls_connected,
            final(self).active_connections == 0 && old(self).health.xmpp_active.state
                == HealthState::Active ==> step_view(final(self).health.xmpp_active) == (
                old(self).health.xmpp_active.key@,
                old(self).health.xmpp_active.label@,
                HealthState::Ready,
                "Waiting for Riot chat traffic"@,
            ),
            !(final(self).active_connections == 0 && old(self).health.xmpp_active.state
                == HealthState::Active) ==> final(self).health.xmpp_active == old(self).health.xmpp_active,
            final(self).health.config_proxy == old(self).health.config_proxy,
            final(self).health.config_patched == old(self).health.config_patched,
            final(self).health.chat_server == old(self).health.chat_server,
            final(self).health.reconnect_attempts == old(self).health.reconnect_attempts,
    {
        self.active_connections = self.active_connections.wrapping_sub(1);
        self.health.active_connections = self.active_connections;
        if self.health.active_connections == 0 {
            if self.health.tls_connected.state == HealthState::Active {
                self.health.tls_connected.set(HealthState::Ready, "Waiting for Riot Client connection");
            }
            if self.health.xmpp_active.state == HealthState::Active {
                self.health.xmpp_active.set(HealthState::Ready, "Waiting for Riot chat traffic");
            }
        }
    }
}

pub open spec fn port_text(p: u16) -> Seq<char> {
    decimal(p as nat)
}

impl AppState {
    /// The config proxy listens: the health shows where.
    pub fn note_config_proxy_ready(&mut self, config_port: u16)
        ensures
            step_view(final(self).health.config_proxy) == (
                old(self).health.config_proxy.key@,
                old(self).health.config_proxy.label@,
                HealthState::Ready,
                "127.0.0.1:"@ + port_text(config_port),
            ),
            final(self).runtime == old(self).runtime,
            final(self).logs == old(self).logs,
    {
        let n = decimal_string(config_port as u64);
        let d = concat2("127.0.0.1:", n.as_str());
        self.health.config_proxy.set(HealthState::Ready, d.as_str());
    }

    /// The Riot Client could not be launched: the proxy was told to stop,
    /// the health starts over and the log says why.
    pub fn launch_failed(&mut self, error: &str)
        ensures
            final(self).health.is_initial(),
            logged(
                old(self).logs@,
                final(self).logs@,
                LogCategory::System,
                LogLevel::Warn,
                "Stopped Ghosty proxy because Riot Client launch failed: "@ + error@,
            ),
            final(self).runtime == old(self).runtime,
    {
        self.health = ConnectionHealth::new();
        self.note_warning(concat2("Stopped Ghosty proxy because Riot Client launch failed: ", error));
    }

    /// The proxy is up: it is recorded as running, with the log saying
    /// whether the Riot Client was launched.
    pub fn install_runtime(
        &mut self,
        chat_port: u16,
        config_port: u16,
        riot_client_path: Option<String>,
        game: LaunchGame,
        launched: bool,
    )
        ensures
            final(self).runtime matches Some(rt) && rt.running && rt.chat_port == chat_port
                && rt.config_port == config_port && rt.riot_chat is None && rt.active_connections == 0
                && rt.reconnect_attempts == 0 && rt.riot_client_path == riot_client_path
                && rt.active_game == game,
            logged(
                old(self).logs@,
                final(self).logs@,
                LogCategory::Launch,
                LogLevel::Info,
                if launched {
                    "Launched Riot Client for "@ + game_label(game)
                } else {
                    "Proxy started without launching Riot Client"@
                },
            ),
            final(self).health == old(self).health,
    {
        if launched {
            append_log(&mut self.logs, LogCategory::Launch, LogLevel::Info, concat2("Launched Riot Client for ", game.label()));
        } else {
            append_log(&mut self.logs, LogCategory::Launch, LogLevel::Info, owned("Proxy started without launching Riot Client"));
        }
        self.runtime = Some(
            ServiceRuntime {
                running: true,
                chat_port,
                config_port,
                riot_chat: None,
                active_connections: 0,
                reconnect_attempts: 0,
                riot_client_path,
                active_game: game,
            },
        );
    }
}

impl AppState {
    /// The config proxy handed on the Riot chat server it found: the running
    /// proxy records it, the health shows the config patched and the server,
    /// and the log names it.
    pub fn record_riot_chat_server(&mut self, server: PatchedChatServer)
        ensures
            match old(self).runtime {
                Some(rt) => final(self).runtime == Some(ServiceRuntime { riot_chat: Some(server), ..rt }),
                None => final(self).runtime is None,
            },
            step_view(final(self).health.config_patched) == (
                old(self).health.config_patched.key@,
                old(self).health.config_patched.label@,
                HealthState::Ready,
                "Riot config returned patched chat settings"@,
            ),
            step_view(final(self).health.chat_server) == (
                old(self).health.chat_server.key@,
                old(self).health.chat_server.label@,
                HealthState::Ready,
                server.host@ + ":"@ + port_text(server.port),
            ),
            logged(
                old(self).logs@,
                final(self).logs@,
                LogCategory::Config,
                LogLevel::Info,
                "Original Riot chat server is "@ + server.host@ + ":"@ + port_text(server.port),
            ),
    {
        let port = decimal_string(server.port as u64);
        let mut at = server.host.clone();
        push_str(&mut at, ":");
        push_str(&mut at, port.as_str());
        self.health.config_patched.set(HealthState::Ready, "Riot config returned patched chat settings");
        self.health.chat_server.set(HealthState::Ready, at.as_str());
        let line = concat2("Original Riot chat server is ", at.as_str());
        assert(line@ =~= "Original Riot chat server is "@ + server.host@ + ":"@ + port_text(server.port));
        append_log(&mut self.logs, LogCategory::Config, LogLevel::Info, line);
        match &mut self.runtime {
            Some(rt) => rt.riot_chat = Some(server),
            None => {},
        }
    }

    /// The chat proxy could not start (its certificate or TLS setup failed):
    /// the proxy stops, the health shows why and the log holds the error.
    pub fn chat_proxy_failed(&mut self, detail: &str, message: String)
        ensures
            match old(self).runtime {
                Some(rt) => final(self).runtime == Some(ServiceRuntime { running: false, ..rt }),
                None => final(self).runtime is None,
            },
            step_view(final(self).health.tls_connected) == (
                old(self).health.tls_connected.key@,
                old(self).health.tls_connected.label@,
                HealthState::Error,
                detail@,
            ),
            logged(old(self).logs@, final(self).logs@, LogCategory::Error, LogLevel::Error, message@),
    {
        match &mut self.runtime {
            Some(rt) => rt.running = false,
            None => {},
        }
        self.health.tls_connected.set(HealthState::Error, detail);
        append_log(&mut self.logs, LogCategory::Error, LogLevel::Error, message);
    }

    /// The config proxy stopped before the chat settings came: the proxy
    /// stops and the health shows it.
    pub fn config_proxy_stopped(&mut self)
        ensures
            match old(self).runtime {
                Some(rt) => final(self).runtime == Some(ServiceRuntime { running: false, ..rt }),
                None => final(self).runtime is None,
            },
            step_view(final(self).health.config_patched) == (
                old(self).health.config_patched.key@,
                old(self).health.config_patched.label@,
                HealthState::Error,
                "Config proxy stopped before Riot chat settings arrived"@,
            ),
            final(self).logs == old(self).logs,
    {
        match &mut self.runtime {
            Some(rt) => rt.running = false,
            None => {},
        }
        self.health.config_patched.set(HealthState::Error, "Config proxy stopped before Riot chat settings arrived");
    }

    /// A proxied connection opened: it is counted (the count wraps), and the
    /// health shows the tunnel and the counts.
    pub fn connection_opened(&mut self)
        ensures
            match old(self).runtime {
                Some(rt) => {
                    &&& final(self).runtime == Some(ServiceRuntime {
                        active_connections: count_after_open(rt.active_connections),
                        ..rt
                    })
                    &&& final(self).health.active_connections == final(self).runtime->0.active_connections
                    &&& final(self).health.reconnect_attempts == rt.reconnect_attempts
                    &&& step_view(final(self).health.tls_connected) == (
                        old(self).health.tls_connected.key@,
                        old(self).health.tls_connected.label@,
                        HealthState::Active,
                        "TLS tunnel established"@,
                    )
                },
                None => final(self).runtime is None && final(self).health == old(self).health,
            },
            final(self).logs == old(self).logs,
    {
        match &mut self.runtime {
            Some(rt) => {
                rt.active_connections = rt.active_connections.wrapping_add(1);
                self.health.tls_connected.set(HealthState::Active, "TLS tunnel established");
                self.health.active_connections = rt.active_connections;
                self.health.reconnect_attempts = rt.reconnect_attempts;
            },
            None => {},
        }
    }

    /// Chat traffic came from the server: the health shows it flowing, with
    /// the connection count.
    pub fn chat_traffic_flowing(&mut self)
        ensures
            step_view(final(self).health.xmpp_active) == (
                old(self).health.xmpp_active.key@,
                old(self).health.xmpp_active.label@,
                HealthState::Active,
                "Riot chat traffic is flowing"@,
            ),
            match old(self).runtime {
                Some(rt) => final(self).health.active_connections == rt.active_connections,
                None => final(self).health.active_connections == old(self).health.active_connections,
            },
            final(self).runtime == old(self).runtime,
            final(self).logs == old(self).logs,
    {
        self.health.xmpp_active.set(HealthState::Active, "Riot chat traffic is flowing");
        match &self.runtime {
            Some(rt) => self.health.active_connections = rt.active_connections,
            None => {},
        }
    }
}

// ---------------------------------------------------------------------------
// The checks before a start
// ---------------------------------------------------------------------------

pub open spec fn riot_client_detail(path: Option<Seq<char>>) -> Seq<char> {
    match path {
        Some(p) => p,
        None => "RiotClientServices.exe was not found"@,
    }
}

pub open spec fn localhost_detail(resolves: bool) -> Seq<char> {
    if resolves {
        crate::config_proxy::LOCALHOST_DOMAIN@ + " resolves to loopback"@
    } else {
        crate::config_proxy::LOCALHOST_DOMAIN@ + " does not resolve to 127.0.0.1"@
    }
}

pub open spec fn certificate_detail(loads: Option<bool>) -> Seq<char> {
    match loads {
        Some(true) => "Cached localhost certificate loads correctly"@,
        Some(false) => "Cached localhost certificate is invalid; Ghosty will redownload it on start"@,
        None => "Certificate is not cached yet; start Ghosty once with internet access to download it"@,
    }
}

pub open spec fn port_detail(ok: bool) -> Seq<char> {
    if ok {
        "A local proxy port can be allocated"@
    } else {
        "Unable to bind a local proxy port"@
    }
}

/// The running Riot processes, or why they could not be listed.
pub open spec fn processes_view(processes: Result<Vec<String>, String>) -> Result<Seq<Seq<char>>, Seq<char>> {
    match processes {
        Ok(p) => Ok(p@.map_values(|s: String| s@)),
        Err(e) => Err(e@),
    }
}

pub open spec fn processes_detail(processes: Result<Seq<Seq<char>>, Seq<char>>) -> Seq<char> {
    match processes {
        Ok(p) => if p.len() == 0 {
            "No Riot processes detected"@
        } else {
            "Riot is already running ("@ + comma_joined(p) + "); use Clean Restart before launching"@
        },
        Err(e) => "Unable to check Riot processes: "@ + e,
    }
}

/// A check by its label, whether it passed, and its detail.
pub open spec fn check_view(c: PreflightCheck) -> (Seq<char>, bool, Seq<char>) {
    (c.label@, c.ok, c.detail@)
}

/// The checks before a start, in order, from what was found on the machine:
/// the Riot Client's executable, whether the local domain resolves to
/// loopback, whether the cached certificate loads (`None` where none is
/// cached), whether a local port could be bound, and the running Riot
/// processes.
pub open spec fn preflight_checks_spec(
    riot_client: Option<Seq<char>>,
    resolves: bool,
    certificate: Option<bool>,
    port_ok: bool,
    processes: Result<Seq<Seq<char>>, Seq<char>>,
) -> Seq<(Seq<char>, bool, Seq<char>)> {
    seq![
        ("Riot Client"@, riot_client is Some, riot_client_detail(riot_client)),
        ("Localhost DNS"@, resolves, localhost_detail(resolves)),
        ("Proxy Certificate"@, certificate == Some(true), certificate_detail(certificate)),
        ("Local Ports"@, port_ok, port_detail(port_ok)),
        ("Riot Processes"@, processes matches Ok(p) && p.len() == 0, processes_detail(processes)),
    ]
}

/// The five checks before a start, in their order (see
/// `preflight_checks_spec`).
pub fn preflight_checks(
    riot_client: Option<String>,
    resolves: bool,
    certificate: Option<bool>,
    port_ok: bool,
    processes: Result<Vec<String>, String>,
) -> (r: Vec<PreflightCheck>)
    ensures
        r@.map_values(|c: PreflightCheck| check_view(c)) == preflight_checks_spec(
            opt_chars(riot_client),
            resolves,
            certificate,
            port_ok,
            processes_view(processes),
        ),
{
    let ghost rc = opt_chars(riot_client);
    let ghost pv = processes_view(processes);
    let mut r: Vec<PreflightCheck> = Vec::new();
    r.push(check_riot_client(riot_client));
    r.push(check_localhost_resolution(resolves));
    r.push(certificate_check(certificate));
    r.push(check_port_available(port_ok));
    r.push(check_riot_processes(processes));
    assert(r@.map_values(|c: PreflightCheck| check_view(c)) =~= preflight_checks_spec(
        rc,
        resolves,
        certificate,
        port_ok,
        pv,
    ));
    r
}

fn check(label: &str, ok: bool, detail: String) -> (r: PreflightCheck)
    ensures
        r.label@ == label@,
        r.ok == ok,
        r.detail@ == detail@,
{
    PreflightCheck { label: owned(label), ok, detail }
}

/// The Riot Client check: passes where its executable was found.
pub fn check_riot_client(path: Option<String>) -> (r: PreflightCheck)
    ensures
        r.label@ == "Riot Client"@,
        r.ok == path is Some,
        r.detail@ == riot_client_detail(opt_chars(path)),
{
    match path {
        Some(p) => check("Riot Client", true, p),
        None => check("Riot Client", false, owned("RiotClientServices.exe was not found")),
    }
}

/// The DNS check: passes where the local domain resolves to loopback.
pub fn check_localhost_resolution(resolves: bool) -> (r: PreflightCheck)
    ensures
        r.label@ == "Localhost DNS"@,
        r.ok == resolves,
        r.detail@ == localhost_detail(resolves),
{
    if resolves {
        check("Localhost DNS", true, concat2(crate::config_proxy::LOCALHOST_DOMAIN, " resolves to loopback"))
    } else {
        check("Localhost DNS", false, concat2(crate::config_proxy::LOCALHOST_DOMAIN, " does not resolve to 127.0.0.1"))
    }
}

/// The certificate check: `None` where no certificate is cached, else
/// whether the cached one loads.
pub fn certificate_check(loads: Option<bool>) -> (r: PreflightCheck)
    ensures
        r.label@ == "Proxy Certificate"@,
        r.ok == (loads == Some(true)),
        r.detail@ == certificate_detail(loads),
{
    match loads {
        Some(true) => check("Proxy Certificate", true, owned("Cached localhost certificate loads correctly")),
        Some(false) => check(
            "Proxy Certificate",
            false,
            owned("Cached localhost certificate is invalid; Ghosty will redownload it on start"),
        ),
        None => check(
            "Proxy Certificate",
            false,
            owned("Certificate is not cached yet; start Ghosty once with internet access to download it"),
        ),
    }
}

/// The port check: passes where a local port could be bound.
pub fn check_port_available(ok: bool) -> (r: PreflightCheck)
    ensures
        r.label@ == "Local Ports"@,
        r.ok == ok,
        r.detail@ == port_detail(ok),
{
    if ok {
        check("Local Ports", true, owned("A local proxy port can be allocated"))
    } else {
        check("Local Ports", false, owned("Unable to bind a local proxy port"))
    }
}

/// `a, b, c`.
pub open spec fn comma_joined(v: Seq<Seq<char>>) -> Seq<char>
    decreases v.len(),
{
    if v.len() == 0 {
        seq![]
    } else if v.len() == 1 {
        v[0]
    } else {
        comma_joined(v.drop_last()) + ", "@ + v.last()
    }
}

/// The Riot process check: passes where none runs.
pub fn check_riot_processes(processes: Result<Vec<String>, String>) -> (r: PreflightCheck)
    ensures
        r.label@ == "Riot Processes"@,
        r.ok == (processes matches Ok(p) && p@.len() == 0),
        r.detail@ == processes_detail(processes_view(processes)),
{
    match processes {
        Ok(p) => {
            if p.len() == 0 {
                check("Riot Processes", true, owned("No Riot processes detected"))
            } else {
                let ghost pv = p@.map_values(|s: String| s@);
                let mut joined = String::new();
                let mut i: usize = 0;
                while i < p.len()
                    invariant
                        i <= p@.len(),
                        pv == p@.map_values(|s: String| s@),
                        joined@ == comma_joined(pv.take(i as int)),
                    decreases p@.len() - i,
                {
                    assert(pv.take(i + 1).drop_last() =~= pv.take(i as int));
                    if i > 0 {
                        push_str(&mut joined, ", ");
                    } else {
                        assert(joined@ =~= Seq::<char>::empty());
                    }
                    push_str(&mut joined, p[i].as_str());
                    i += 1;
                }
                assert(pv.take(p@.len() as int) =~= pv);
                let mut d = owned("Riot is already running (");
                push_str(&mut d, joined.as_str());
                push_str(&mut d, "); use Clean Restart before launching");
                check("Riot Processes", false, d)
            }
        },
        Err(e) => check("Riot Processes", false, concat2("Unable to check Riot processes: ", e.as_str())),
    }
}

// ---------------------------------------------------------------------------
// The helper friend's view of the settings
// ---------------------------------------------------------------------------

impl AppState {
    /// The settings a chat connection reads when data comes.
    pub fn live(&self) -> (r: Live)
        ensures
            r.helper_friend == self.helper_friend,
            r.safe_mode == self.safe_mode,
            r.connect_to_muc == self.connect_to_muc,
            r.settings.enabled == self.enabled,
            r.settings.status == self.status,
            r.settings.auto_accept == self.auto_accept,
            r.settings.auto_accept_state@ == self.auto_accept_state@,
    {
        Live {
            helper_friend: self.helper_friend,
            safe_mode: self.safe_mode,
            connect_to_muc: self.connect_to_muc,
            settings: HelperSettings {
                enabled: self.enabled,
                status: self.status,
                auto_accept: self.auto_accept,
                auto_accept_state: self.auto_accept_state.clone(),
            },
        }
    }

    /// A change a helper command made: the status, the masking flag, or the
    /// auto-accept flag with its state text. Nothing is logged.
    pub fn apply_helper_change(&mut self, change: SettingsChange)
        ensures
            match change {
                SettingsChange::Status(st) => final(self).status == st && final(self).enabled == old(self).enabled
                    && final(self).auto_accept == old(self).auto_accept
                    && final(self).auto_accept_state@ == old(self).auto_accept_state@,
                SettingsChange::Enabled(b) => final(self).enabled == b && final(self).status == old(self).status
                    && final(self).auto_accept == old(self).auto_accept
                    && final(self).auto_accept_state@ == old(self).auto_accept_state@,
                SettingsChange::AutoAccept(b) => final(self).auto_accept == b
                    && final(self).auto_accept_state@ == auto_accept_state_for(b) && final(self).status
                    == old(self).status && final(self).enabled == old(self).enabled,
            },
            final(self).runtime == old(self).runtime,
            final(self).logs == old(self).logs,
            final(self).health == old(self).health,
            final(self).helper_friend == old(self).helper_friend,
            final(self).safe_mode == old(self).safe_mode,
            final(self).connect_to_muc == old(self).connect_to_muc,
    {
        match change {
            SettingsChange::Status(st) => self.status = st,
            SettingsChange::Enabled(b) => self.enabled = b,
            SettingsChange::AutoAccept(b) => {
                self.auto_accept = b;
                self.auto_accept_state = if b {
                    owned("Watching for ready check")
                } else {
                    owned("Disabled")
                };
            },
        }
    }
}

impl AppState {
    /// The auto-accept monitor reports where it stands.
    pub fn set_auto_accept_state(&mut self, text: String)
        ensures
            final(self).auto_accept_state@ == text@,
            final(self).auto_accept == old(self).auto_accept,
            final(self).runtime == old(self).runtime,
            final(self).logs == old(self).logs,
            final(self).health == old(self).health,
    {
        self.auto_accept_state = text;
    }
}

impl AppState {
    /// A proxied connection of the running proxy ended: it comes off the
    /// count and the health shows it (see `ActiveConnectionGuard::close`).
    /// With no proxy recorded nothing changes.
    pub fn connection_closed(&mut self)
        ensures
            match old(self).runtime {
                Some(rt) => {
                    let left = count_after_close(rt.active_connections);
                    &&& final(self).runtime == Some(ServiceRuntime { active_connections: left, ..rt })
                    &&& final(self).health.active_connections == left
                    &&& (left == 0 && old(self).health.tls_connected.state == HealthState::Active ==> step_view(
                        final(self).health.tls_connected,
                    ) == (
                        old(self).health.tls_connected.key@,
                        old(self).health.tls_connected.label@,
                        HealthState::Ready,
                        "Waiting for Riot Client connection"@,
                    ))
                    &&& (!(left == 0 && old(self).health.tls_connected.state == HealthState::Active) ==> final(self).health.tls_connected == old(self).health.tls_connected)
                    &&& (left == 0 && old(self).health.xmpp_active.state == HealthState::Active ==> step_view(
                        final(self).health.xmpp_active,
                    ) == (
                        old(self).health.xmpp_active.key@,
                        old(self).health.xmpp_active.label@,
                        HealthState::Ready,
                        "Waiting for Riot chat traffic"@,
                    ))
                    &&& (!(left == 0 && old(self).health.xmpp_active.state == HealthState::Active) ==> final(self).health.xmpp_active == old(self).health.xmpp_active)
                    &&& final(self).health.config_proxy == old(self).health.config_proxy
                    &&& final(self).health.config_patched == old(self).health.config_patched
                    &&& final(self).health.chat_server == old(self).health.chat_server
                    &&& final(self).health.reconnect_attempts == old(self).health.reconnect_attempts
                },
                None => final(self).runtime is None && final(self).health == old(self).health,
            },
            final(self).logs == old(self).logs,
    {
        let count = match &self.runtime {
            Some(rt) => rt.active_connections,
            None => return,
        };
        let mut health = ConnectionHealth::new();
        std::mem::swap(&mut health, &mut self.health);
        let mut guard = ActiveConnectionGuard { active_connections: count, health };
        guard.close();
        match &mut self.runtime {
            Some(rt) => rt.active_connections = guard.active_connections,
            None => {},
        }
        self.health = guard.health;
    }

    /// A proxied connection of this proxy ended with an error (or cleanly):
    /// the reconnect count and the health change as
    /// `record_proxy_connection_error` says, and its log line is added.
    /// `running` is whether the proxy the connection belonged to still runs.
    pub fn connection_failed(&mut self, running: bool, error: &ConnectionError)
        ensures
            !running || *error is CleanClose ==> final(self).health == old(self).health && final(self).runtime
                == old(self).runtime,
            running && *error is Failed ==> match old(self).runtime {
                Some(rt) => {
                    let n = if rt.reconnect_attempts == u32::MAX {
                        0u32
                    } else {
                        (rt.reconnect_attempts + 1) as u32
                    };
                    &&& final(self).runtime == Some(ServiceRuntime { reconnect_attempts: n, ..rt })
                    &&& final(self).health.reconnect_attempts == n
                    &&& final(self).health.tls_connected.state == HealthState::Warning
                    &&& final(self).health.tls_connected.detail@ == "Last connection closed"@
                    &&& final(self).health.xmpp_active.state == HealthState::Warning
                    &&& final(self).health.xmpp_active.detail@ == "Waiting for Riot Client reconnect"@
                },
                None => final(self).runtime is None,
            },
            !running ==> logged(
                old(self).logs@,
                final(self).logs@,
                LogCategory::Chat,
                LogLevel::Info,
                "Chat proxy connection closed after Ghosty stopped: "@ + connection_error_text(*error),
            ),
            running && *error is CleanClose ==> logged(
                old(self).logs@,
                final(self).logs@,
                LogCategory::Chat,
                LogLevel::Info,
                "Chat proxy connection closed cleanly"@,
            ),
            running && *error is Failed ==> logged(
                old(self).logs@,
                final(self).logs@,
                LogCategory::Chat,
                LogLevel::Warn,
                "Chat proxy connection closed: "@ + connection_error_text(*error),
            ),
    {
        let mut attempts: u32 = match &self.runtime {
            Some(rt) => rt.reconnect_attempts,
            None => 0,
        };
        let entry = if self.runtime.is_some() {
            record_proxy_connection_error(running, &mut attempts, &mut self.health, error)
        } else {
            let mut scratch = copy_health(&self.health);
            record_proxy_connection_error(running, &mut attempts, &mut scratch, error)
        };
        match &mut self.runtime {
            Some(rt) => rt.reconnect_attempts = attempts,
            None => {},
        }
        append_log(&mut self.logs, entry.category, entry.level, entry.message);
    }
}

} // verus!
