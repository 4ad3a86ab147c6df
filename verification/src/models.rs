//! The values that the control panel shows and the proxy records.
use vstd::prelude::*;

verus! {

/// What the Riot Client is asked to launch.
#[derive(Debug, Clone, Copy, PartialEq, Eq, Structural)]
pub enum LaunchGame {
    Lol,
    Lor,
    Valorant,
    Lion,
    RiotClient,
}

pub open spec fn launch_product_of(game: LaunchGame) -> Option<Seq<char>> {
    match game {
        LaunchGame::Lol => Some("league_of_legends"@),
        LaunchGame::Lor => Some("bacon"@),
        LaunchGame::Valorant => Some("valorant"@),
        LaunchGame::Lion => Some("lion"@),
        LaunchGame::RiotClient => None,
    }
}

/// Each game is launched as Riot's product id for it: League of Legends is
/// `league_of_legends`, Legends of Runeterra `bacon`, VALORANT `valorant`,
/// 2XKO `lion`; the Riot Client by itself launches no product.
pub proof fn lemma_launch_products(game: LaunchGame)
    ensures
        game == LaunchGame::Lol <==> launch_product_of(game) == Some("league_of_legends"@),
        game == LaunchGame::Lor <==> launch_product_of(game) == Some("bacon"@),
        game == LaunchGame::Valorant <==> launch_product_of(game) == Some("valorant"@),
        game == LaunchGame::Lion <==> launch_product_of(game) == Some("lion"@),
        game == LaunchGame::RiotClient <==> launch_product_of(game) is None,
{
    reveal_strlit("league_of_legends");
    reveal_strlit("bacon");
    reveal_strlit("valorant");
    reveal_strlit("lion");
    assert("league_of_legends"@.len() == 17);
    assert("bacon"@.len() == 5);
    assert("valorant"@.len() == 8);
    assert("lion"@.len() == 4);
}

pub open spec fn game_label(game: LaunchGame) -> Seq<char> {
    match game {
        LaunchGame::Lol => "League of Legends"@,
        LaunchGame::Lor => "Legends of Runeterra"@,
        LaunchGame::Valorant => "VALORANT"@,
        LaunchGame::Lion => "2XKO"@,
        LaunchGame::RiotClient => "Riot Client"@,
    }
}

impl LaunchGame {
    /// The `--launch-product` value, or `None` for the Riot Client alone.
    pub fn launch_product(self) -> (r: Option<&'static str>)
        ensures
            match r {
                Some(p) => launch_product_of(self) == Some(p@),
                None => launch_product_of(self).is_none(),
            },
    {
        match self {
            LaunchGame::Lol => Some("league_of_legends"),
            LaunchGame::Lor => Some("bacon"),
            LaunchGame::Valorant => Some("valorant"),
            LaunchGame::Lion => Some("lion"),
            LaunchGame::RiotClient => None,
        }
    }

    /// The name shown to the user.
    pub fn label(self) -> (r: &'static str)
        ensures
            r@ == game_label(self),
    {
        match self {
            LaunchGame::Lol => "League of Legends",
            LaunchGame::Lor => "Legends of Runeterra",
            LaunchGame::Valorant => "VALORANT",
            LaunchGame::Lion => "2XKO",
            LaunchGame::RiotClient => "Riot Client",
        }
    }
}

/// The presence that Ghosty shows to friends.
#[derive(Debug, Clone, Copy, PartialEq, Eq, Structural)]
pub enum PresenceStatus {
    Chat,
    Offline,
    Mobile,
}

pub open spec fn xmpp_show(status: PresenceStatus) -> Seq<char> {
    match status {
        PresenceStatus::Chat => "chat"@,
        PresenceStatus::Offline => "offline"@,
        PresenceStatus::Mobile => "mobile"@,
    }
}

impl PresenceStatus {
    /// The XMPP `<show>` value of this status.
    pub fn as_xmpp(self) -> (r: &'static str)
        ensures
            r@ == xmpp_show(self),
    {
        match self {
            PresenceStatus::Chat => "chat",
            PresenceStatus::Offline => "offline",
            PresenceStatus::Mobile => "mobile",
        }
    }
}

/// The status that Ghosty starts with.
#[derive(Debug, Clone, Copy, PartialEq, Eq, Structural)]
pub enum StartupStatus {
    Chat,
    Offline,
    Mobile,
    Last,
}

#[derive(Debug, Clone, Copy, PartialEq, Eq, Structural)]
pub enum HealthState {
    Waiting,
    Ready,
    Active,
    Warning,
    Error,
}

/// One step of the connection pipeline as the control panel shows it.
#[derive(Debug, Clone)]
pub struct HealthStep {
    pub key: String,
    pub label: String,
    pub state: HealthState,
    pub detail: String,
}

impl HealthStep {
    /// A step that has not happened yet.
    pub fn new(key: &str, label: &str) -> (r: Self)
        ensures
            r.key@ == key@,
            r.label@ == label@,
            r.state == HealthState::Waiting,
            r.detail@ == "Waiting"@,
    {
        HealthStep {
            key: key.to_owned(),
            label: label.to_owned(),
            state: HealthState::Waiting,
            detail: "Waiting".to_owned(),
        }
    }

    pub open spec fn is_waiting(&self, key: Seq<char>, label: Seq<char>) -> bool {
        &&& self.key@ == key
        &&& self.label@ == label
        &&& self.state == HealthState::Waiting
        &&& self.detail@ == "Waiting"@
    }

    pub fn set(&mut self, state: HealthState, detail: &str)
        ensures
            final(self).key@ == old(self).key@,
            final(self).label@ == old(self).label@,
            final(self).state == state,
            final(self).detail@ == detail@,
    {
        self.state = state;
        self.detail = detail.to_owned();
    }
}

#[derive(Debug, Clone)]
pub struct ConnectionHealth {
    pub config_proxy: HealthStep,
    pub config_patched: HealthStep,
    pub chat_server: HealthStep,
    pub tls_connected: HealthStep,
    pub xmpp_active: HealthStep,
    pub active_connections: usize,
    pub reconnect_attempts: u32,
}

impl ConnectionHealth {
    /// Every step waiting, no connection and no reconnect yet.
    pub open spec fn is_initial(&self) -> bool {
        &&& self.config_proxy.is_waiting("configProxy"@, "Config proxy"@)
        &&& self.config_patched.is_waiting("configPatched"@, "Config patched"@)
        &&& self.chat_server.is_waiting("chatServer"@, "Chat server"@)
        &&& self.tls_connected.is_waiting("tlsConnected"@, "TLS connected"@)
        &&& self.xmpp_active.is_waiting("xmppActive"@, "XMPP active"@)
        &&& self.active_connections == 0
        &&& self.reconnect_attempts == 0
    }

    /// The health of a proxy that has not started.
    pub fn new() -> (r: Self)
        ensures
            r.is_initial(),
    {
        ConnectionHealth {
            config_proxy: HealthStep::new("configProxy", "Config proxy"),
            config_patched: HealthStep::new("configPatched", "Config patched"),
            chat_server: HealthStep::new("chatServer", "Chat server"),
            tls_connected: HealthStep::new("tlsConnected", "TLS connected"),
            xmpp_active: HealthStep::new("xmppActive", "XMPP active"),
            active_connections: 0,
            reconnect_attempts: 0,
        }
    }
}

#[derive(Debug, Clone, Copy, PartialEq, Eq, Structural)]
pub enum LogLevel {
    Info,
    Warn,
    Error,
}

#[derive(Debug, Clone, Copy, PartialEq, Eq, Structural)]
pub enum LogCategory {
    Config,
    Chat,
    Launch,
    Error,
    System,
}

#[derive(Debug, Clone)]
pub struct LogEntry {
    pub timestamp: String,
    pub level: LogLevel,
    pub category: LogCategory,
    pub message: String,
}

/// One chunk of proxied traffic as the stream viewer shows it.
#[derive(Debug, Clone)]
pub struct StreamEvent {
    pub timestamp: String,
    pub direction: String,
    pub bytes: usize,
    pub preview: String,
}

#[derive(Debug, Clone)]
pub struct PreflightCheck {
    pub label: String,
    pub ok: bool,
    pub detail: String,
}

#[derive(Debug, Clone)]
pub struct PreflightReport {
    pub ok: bool,
    pub checks: Vec<PreflightCheck>,
}

/// Everything the control panel shows at one moment.
#[derive(Debug, Clone)]
pub struct AppSnapshot {
    pub running: bool,
    pub enabled: bool,
    pub safe_mode: bool,
    pub helper_friend: bool,
    pub auto_accept: bool,
    pub auto_accept_delay_ms: u32,
    pub auto_accept_state: String,
    pub discord_webhook_url: String,
    pub status: PresenceStatus,
    pub startup_status: StartupStatus,
    pub connect_to_muc: bool,
    pub health: ConnectionHealth,
    pub chat_port: Option<u16>,
    pub config_port: Option<u16>,
    pub riot_chat_host: Option<String>,
    pub riot_chat_port: Option<u16>,
    pub riot_client_path: Option<String>,
    pub active_game: Option<LaunchGame>,
    pub active_game_label: Option<String>,
    pub logs: Vec<LogEntry>,
    pub stream_events: Vec<StreamEvent>,
}

} // verus!
