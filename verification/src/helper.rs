//! Chat commands sent to the helper friend: which command a message names,
//! the reply, and the settings it changes.
use vstd::prelude::*;

use crate::models::{xmpp_show, PresenceStatus};
use crate::persistence::{write_auto_accept, write_session_status, StoredSetting};
use vstd::utf8::encode_utf8;

use crate::presence::{contains_helper_message, contains_helper_message_spec};
use crate::text::{
    chars_of, concat2, contains, is_alnum, is_ascii_alnum, lower_seq, lowercase, match_at,
    partial_marker_tail, partial_marker_tail_len, push_str, seq_eq, starts_with, str_contains,
    string_bytes,
};
use crate::xml::{
    attribute, child, child_index, document_parse, element_text_of, fragment_parse, get_attribute,
    get_text, has_child, is_first_child, lemma_first_child_unique, lemma_has_first_child,
    lemma_nodes_view, node_view, nodes_view, opt_chars, parse_document, parse_fragment,
    serialize_element, text_of, XmlElement, XmlElementView, XmlNode, XmlNodeView,
};

verus! {

// ---------------------------------------------------------------------------
// Words of a command
// ---------------------------------------------------------------------------

/// Length of the run of ASCII letters and digits that starts `s`.
pub open spec fn run_len(s: Seq<char>) -> nat
    decreases s.len(),
{
    if s.len() == 0 || !is_ascii_alnum(s[0]) {
        0
    } else {
        1 + run_len(s.drop_first())
    }
}

proof fn lemma_run_len(s: Seq<char>)
    ensures
        run_len(s) <= s.len(),
        forall|k: int| 0 <= k < run_len(s) ==> is_ascii_alnum(#[trigger] s[k]),
        run_len(s) < s.len() ==> !is_ascii_alnum(s[run_len(s) as int]),
    decreases s.len(),
{
    if s.len() > 0 && is_ascii_alnum(s[0]) {
        lemma_run_len(s.drop_first());
        assert forall|k: int| 0 <= k < run_len(s) implies is_ascii_alnum(#[trigger] s[k]) by {
            if k > 0 {
                assert(s[k] == s.drop_first()[k - 1]);
            }
        }
    }
}

/// The words of a command: maximal runs of ASCII letters and digits.
pub open spec fn command_words(s: Seq<char>) -> Seq<Seq<char>>
    decreases s.len(),
{
    if s.len() == 0 {
        seq![]
    } else if !is_ascii_alnum(s[0]) {
        command_words(s.drop_first())
    } else {
        let k = run_len(s);
        if 0 < k <= s.len() {
            seq![s.take(k as int)] + command_words(s.skip(k as int))
        } else {
            seq![]
        }
    }
}

fn split_words(v: &[char]) -> (r: Vec<Vec<char>>)
    ensures
        r@.map_values(|w: Vec<char>| w@) == command_words(v@),
{
    let n = v.len();
    let mut r: Vec<Vec<char>> = Vec::new();
    let mut i: usize = 0;
    assert(v@.subrange(0, n as int) =~= v@);
    while i < n
        invariant
            i <= n == v@.len(),
            command_words(v@) == r@.map_values(|w: Vec<char>| w@) + command_words(
                v@.subrange(i as int, n as int),
            ),
        decreases n - i,
    {
        let ghost rest = v@.subrange(i as int, n as int);
        if !is_alnum(v[i]) {
            assert(rest.drop_first() =~= v@.subrange(i + 1, n as int));
            i += 1;
        } else {
            let mut j: usize = i;
            while j < n && is_alnum(v[j])
                invariant
                    i <= j <= n == v@.len(),
                    forall|k: int| i <= k < j ==> is_ascii_alnum(v@[k]),
                decreases n - j,
            {
                j += 1;
            }
            proof {
                lemma_run_len(rest);
                let k = run_len(rest);
                if k < j - i {
                    assert(rest[k as int] == v@[i + k]);
                } else if k > j - i {
                    assert(rest[(j - i) as int] == v@[j as int]);
                }
                assert(k == j - i);
                assert(rest.take(k as int) =~= v@.subrange(i as int, j as int));
                assert(rest.skip(k as int) =~= v@.subrange(j as int, n as int));
            }
            let w = crate::text::slice_vec(v, i, j);
            let ghost prev = r@;
            r.push(w);
            assert(r@.map_values(|w: Vec<char>| w@) =~= prev.map_values(|w: Vec<char>| w@) + seq![w@]);
            i = j;
        }
    }
    assert(v@.subrange(n as int, n as int) =~= Seq::<char>::empty());
    assert(r@.map_values(|w: Vec<char>| w@) + command_words(Seq::<char>::empty()) =~= r@.map_values(
        |w: Vec<char>| w@,
    ));
    r
}

fn has_word(words: &Vec<Vec<char>>, keyword: &str) -> (r: bool)
    ensures
        r == words@.map_values(|w: Vec<char>| w@).contains(keyword@),
{
    let k = chars_of(keyword);
    let ghost ws = words@.map_values(|w: Vec<char>| w@);
    let mut i: usize = 0;
    while i < words.len()
        invariant
            i <= words@.len(),
            ws == words@.map_values(|w: Vec<char>| w@),
            k@ == keyword@,
            forall|m: int| 0 <= m < i ==> ws[m] != keyword@,
        decreases words@.len() - i,
    {
        if seq_eq(words[i].as_slice(), k.as_slice()) {
            assert(ws[i as int] == keyword@);
            return true;
        }
        i += 1;
    }
    false
}

// ---------------------------------------------------------------------------
// Commands
// ---------------------------------------------------------------------------

/// A command the helper friend understands.
#[derive(Debug, Clone, Copy, PartialEq, Eq, Structural)]
pub enum HelperCommand {
    Offline,
    Mobile,
    Online,
    Disable,
    Enable,
    Status,
    Help,
    AutoAcceptOn,
    AutoAcceptOff,
    AutoAcceptStatus,
    FriendsSummary,
    OpggMulti,
    Opgg,
}

/// Which command a message names, from its lower-cased words: "auto accept"
/// (with "off"/"disable" or "status"), "friend(s)", a multi-search ("multi",
/// or "lobby" with "link", "opgg" or "op gg"), "opgg"/"op", and otherwise the
/// first of the plain commands that occurs.
pub open spec fn command_kind(command: Seq<char>) -> Option<HelperCommand> {
    let ws = command_words(lower_seq(command));
    if ws.contains("auto"@) && ws.contains("accept"@) {
        if ws.contains("off"@) || ws.contains("disable"@) {
            Some(HelperCommand::AutoAcceptOff)
        } else if ws.contains("status"@) {
            Some(HelperCommand::AutoAcceptStatus)
        } else {
            Some(HelperCommand::AutoAcceptOn)
        }
    } else if ws.contains("friend"@) || ws.contains("friends"@) {
        Some(HelperCommand::FriendsSummary)
    } else if ws.contains("multi"@) || (ws.contains("lobby"@) && ws.contains("link"@)) || (ws.contains(
        "lobby"@,
    ) && ws.contains("opgg"@)) || (ws.contains("lobby"@) && ws.contains("op"@) && ws.contains(
        "gg"@,
    )) {
        Some(HelperCommand::OpggMulti)
    } else if ws.contains("opgg"@) || ws.contains("op"@) || (ws.contains("op"@) && ws.contains(
        "gg"@,
    )) {
        Some(HelperCommand::Opgg)
    } else if ws.contains("offline"@) {
        Some(HelperCommand::Offline)
    } else if ws.contains("mobile"@) {
        Some(HelperCommand::Mobile)
    } else if ws.contains("online"@) {
        Some(HelperCommand::Online)
    } else if ws.contains("disable"@) {
        Some(HelperCommand::Disable)
    } else if ws.contains("enable"@) {
        Some(HelperCommand::Enable)
    } else if ws.contains("status"@) {
        Some(HelperCommand::Status)
    } else if ws.contains("help"@) {
        Some(HelperCommand::Help)
    } else {
        None
    }
}

/// A message mentioning both `auto` and `accept` is about auto accept: it
/// turns it off when it also says `off` or `disable`, reports it when it
/// says `status` (and neither), and otherwise turns it on. Other commands
/// never touch auto accept.
pub proof fn lemma_auto_accept_commands(command: Seq<char>)
    ensures
        ({
            let ws = command_words(lower_seq(command));
            let about = ws.contains("auto"@) && ws.contains("accept"@);
            let off = ws.contains("off"@) || ws.contains("disable"@);
            &&& about && off ==> command_kind(command) == Some(HelperCommand::AutoAcceptOff)
            &&& about && !off && ws.contains("status"@) ==> command_kind(command) == Some(
                HelperCommand::AutoAcceptStatus,
            )
            &&& about && !off && !ws.contains("status"@) ==> command_kind(command) == Some(
                HelperCommand::AutoAcceptOn,
            )
            &&& !about ==> command_kind(command) != Some(HelperCommand::AutoAcceptOff) && command_kind(command)
                != Some(HelperCommand::AutoAcceptOn) && command_kind(command) != Some(
                HelperCommand::AutoAcceptStatus,
            )
        }),
{
}

/// Outside auto accept, the friends summary comes first, then the lobby
/// OP.GG link (`multi`, or `lobby` with `link`, `opgg` or `op gg`), then the
/// player's OP.GG link (`opgg` or `op`), then the first of `offline`,
/// `mobile`, `online`, `disable`, `enable`, `status`, `help` that the message
/// mentions; a message with none of these words is no command.
pub proof fn lemma_plain_commands(command: Seq<char>)
    ensures
        ({
            let ws = command_words(lower_seq(command));
            let about = ws.contains("auto"@) && ws.contains("accept"@);
            let friends = ws.contains("friend"@) || ws.contains("friends"@);
            let lobby = ws.contains("multi"@) || (ws.contains("lobby"@) && (ws.contains("link"@) || ws.contains(
                "opgg"@,
            ) || (ws.contains("op"@) && ws.contains("gg"@))));
            let opgg = ws.contains("opgg"@) || ws.contains("op"@);
            let earlier = about || friends || lobby || opgg;
            &&& !about && friends ==> command_kind(command) == Some(HelperCommand::FriendsSummary)
            &&& !about && !friends && lobby ==> command_kind(command) == Some(HelperCommand::OpggMulti)
            &&& !about && !friends && !lobby && opgg ==> command_kind(command) == Some(HelperCommand::Opgg)
            &&& !earlier && ws.contains("offline"@) ==> command_kind(command) == Some(HelperCommand::Offline)
            &&& !earlier && !ws.contains("offline"@) && ws.contains("mobile"@) ==> command_kind(command) == Some(
                HelperCommand::Mobile,
            )
            &&& !earlier && !ws.contains("offline"@) && !ws.contains("mobile"@) && ws.contains("online"@)
                ==> command_kind(command) == Some(HelperCommand::Online)
            &&& !earlier && !ws.contains("offline"@) && !ws.contains("mobile"@) && !ws.contains("online"@)
                && ws.contains("disable"@) ==> command_kind(command) == Some(HelperCommand::Disable)
            &&& !earlier && !ws.contains("offline"@) && !ws.contains("mobile"@) && !ws.contains("online"@)
                && !ws.contains("disable"@) && ws.contains("enable"@) ==> command_kind(command) == Some(
                HelperCommand::Enable,
            )
            &&& !earlier && !ws.contains("offline"@) && !ws.contains("mobile"@) && !ws.contains("online"@)
                && !ws.contains("disable"@) && !ws.contains("enable"@) && ws.contains("status"@) ==> command_kind(
                command,
            ) == Some(HelperCommand::Status)
            &&& !earlier && !ws.contains("offline"@) && !ws.contains("mobile"@) && !ws.contains("online"@)
                && !ws.contains("disable"@) && !ws.contains("enable"@) && !ws.contains("status"@) ==> command_kind(
                command,
            ) == (if ws.contains("help"@) {
                Some(HelperCommand::Help)
            } else {
                None
            })
        }),
{
}

pub fn helper_command_kind(command: &str) -> (r: Option<HelperCommand>)
    ensures
        r == command_kind(command@),
{
    let c = chars_of(command);
    let lower = lowercase(c.as_slice());
    let ws = split_words(lower.as_slice());
    if has_word(&ws, "auto") && has_word(&ws, "accept") {
        if has_word(&ws, "off") || has_word(&ws, "disable") {
            return Some(HelperCommand::AutoAcceptOff);
        }
        if has_word(&ws, "status") {
            return Some(HelperCommand::AutoAcceptStatus);
        }
        return Some(HelperCommand::AutoAcceptOn);
    }
    if has_word(&ws, "friend") || has_word(&ws, "friends") {
        return Some(HelperCommand::FriendsSummary);
    }
    if has_word(&ws, "multi") || (has_word(&ws, "lobby") && has_word(&ws, "link")) || (has_word(
        &ws,
        "lobby",
    ) && has_word(&ws, "opgg")) || (has_word(&ws, "lobby") && has_word(&ws, "op") && has_word(
        &ws,
        "gg",
    )) {
        return Some(HelperCommand::OpggMulti);
    }
    if has_word(&ws, "opgg") || has_word(&ws, "op") || (has_word(&ws, "op") && has_word(&ws, "gg")) {
        return Some(HelperCommand::Opgg);
    }
    if has_word(&ws, "offline") {
        Some(HelperCommand::Offline)
    } else if has_word(&ws, "mobile") {
        Some(HelperCommand::Mobile)
    } else if has_word(&ws, "online") {
        Some(HelperCommand::Online)
    } else if has_word(&ws, "disable") {
        Some(HelperCommand::Disable)
    } else if has_word(&ws, "enable") {
        Some(HelperCommand::Enable)
    } else if has_word(&ws, "status") {
        Some(HelperCommand::Status)
    } else if has_word(&ws, "help") {
        Some(HelperCommand::Help)
    } else {
        None
    }
}

// ---------------------------------------------------------------------------
// Replies
// ---------------------------------------------------------------------------

/// The settings the helper friend reports and changes.
#[derive(Debug, Clone)]
pub struct HelperSettings {
    pub enabled: bool,
    pub status: PresenceStatus,
    pub auto_accept: bool,
    pub auto_accept_state: String,
}

pub const HELP_MESSAGE: &'static str = "Send online, offline, mobile, enable, disable, status, friends, auto accept on, auto accept off, auto accept status, opgg, or opgg multi.";

pub open spec fn status_label(status: PresenceStatus) -> Seq<char> {
    match status {
        PresenceStatus::Chat => "online"@,
        PresenceStatus::Offline => "offline"@,
        PresenceStatus::Mobile => "mobile"@,
    }
}

pub fn helper_status_label(status: PresenceStatus) -> (r: &'static str)
    ensures
        r@ == status_label(status),
{
    match status {
        PresenceStatus::Chat => "online",
        PresenceStatus::Offline => "offline",
        PresenceStatus::Mobile => "mobile",
    }
}

pub open spec fn on_off(b: bool) -> Seq<char> {
    if b {
        "enabled"@
    } else {
        "disabled"@
    }
}

fn on_off_str(b: bool) -> (r: &'static str)
    ensures
        r@ == on_off(b),
{
    if b {
        "enabled"
    } else {
        "disabled"
    }
}

pub open spec fn auto_accept_message_spec(s: HelperSettings) -> Seq<char> {
    "Auto accept is "@ + on_off(s.auto_accept) + ". Client state: "@ + s.auto_accept_state@ + "."@
}

pub fn helper_auto_accept_message(settings: &HelperSettings) -> (r: String)
    ensures
        r@ == auto_accept_message_spec(*settings),
{
    let mut s = "Auto accept is ".to_owned();
    push_str(&mut s, on_off_str(settings.auto_accept));
    push_str(&mut s, ". Client state: ");
    push_str(&mut s, settings.auto_accept_state.as_str());
    push_str(&mut s, ".");
    s
}

pub open spec fn status_message_spec(s: HelperSettings) -> Seq<char> {
    "You are appearing "@ + status_label(s.status) + ". Presence masking is "@ + on_off(s.enabled)
        + ". "@ + auto_accept_message_spec(s) + " "@ + HELP_MESSAGE@
}

/// What the helper friend says about the current settings.
pub fn helper_status_message(settings: &HelperSettings) -> (r: String)
    ensures
        r@ == status_message_spec(*settings),
{
    let mut s = "You are appearing ".to_owned();
    push_str(&mut s, helper_status_label(settings.status));
    push_str(&mut s, ". Presence masking is ");
    push_str(&mut s, on_off_str(settings.enabled));
    push_str(&mut s, ". ");
    let a = helper_auto_accept_message(settings);
    push_str(&mut s, a.as_str());
    push_str(&mut s, " ");
    push_str(&mut s, HELP_MESSAGE);
    s
}

/// The first message the helper friend sends: the current settings.
pub fn helper_intro_message(settings: &HelperSettings) -> (r: String)
    ensures
        r@ == status_message_spec(*settings),
{
    helper_status_message(settings)
}

/// A League Client lookup a command asks for; its answer is the reply.
#[derive(Debug, Clone, Copy, PartialEq, Eq, Structural)]
pub enum LcuLookup {
    SummonerLink,
    LobbyLink,
    FriendsSummary,
}

/// The reply to a command: a text, or the answer of a League Client lookup.
#[derive(Debug)]
pub enum HelperReply {
    Text(String),
    Lookup(LcuLookup),
}

/// A settings change a command makes.
#[derive(Debug, Clone, Copy, PartialEq, Eq, Structural)]
pub enum SettingsChange {
    Status(PresenceStatus),
    Enabled(bool),
    AutoAccept(bool),
}

/// The reply to a command and the change it makes.
#[derive(Debug)]
pub struct HelperPlan {
    pub reply: HelperReply,
    pub change: Option<SettingsChange>,
}

pub enum ReplyView {
    Text(Seq<char>),
    Lookup(LcuLookup),
}

pub open spec fn reply_view(r: HelperReply) -> ReplyView {
    match r {
        HelperReply::Text(s) => ReplyView::Text(s@),
        HelperReply::Lookup(l) => ReplyView::Lookup(l),
    }
}

/// The reply to and change of a command, given the current settings.
pub open spec fn plan_spec(c: HelperCommand, s: HelperSettings) -> (ReplyView, Option<SettingsChange>) {
    match c {
        HelperCommand::Offline => (
            ReplyView::Text("You are now appearing offline."@),
            Some(SettingsChange::Status(PresenceStatus::Offline)),
        ),
        HelperCommand::Mobile => (
            ReplyView::Text("You are now appearing mobile."@),
            Some(SettingsChange::Status(PresenceStatus::Mobile)),
        ),
        HelperCommand::Online => (
            ReplyView::Text("You are now appearing online."@),
            Some(SettingsChange::Status(PresenceStatus::Chat)),
        ),
        HelperCommand::Enable => (ReplyView::Text("Ghosty is now enabled."@), Some(SettingsChange::Enabled(true))),
        HelperCommand::Disable => (ReplyView::Text("Ghosty is now disabled."@), Some(SettingsChange::Enabled(false))),
        HelperCommand::AutoAcceptOn => (
            ReplyView::Text("Auto accept is now enabled."@),
            Some(SettingsChange::AutoAccept(true)),
        ),
        HelperCommand::AutoAcceptOff => (
            ReplyView::Text("Auto accept is now disabled."@),
            Some(SettingsChange::AutoAccept(false)),
        ),
        HelperCommand::AutoAcceptStatus => (ReplyView::Text(auto_accept_message_spec(s)), None),
        HelperCommand::Opgg => (ReplyView::Lookup(LcuLookup::SummonerLink), None),
        HelperCommand::OpggMulti => (ReplyView::Lookup(LcuLookup::LobbyLink), None),
        HelperCommand::FriendsSummary => (ReplyView::Lookup(LcuLookup::FriendsSummary), None),
        HelperCommand::Status => (ReplyView::Text(status_message_spec(s)), None),
        HelperCommand::Help => (ReplyView::Text(HELP_MESSAGE@), None),
    }
}

/// What each command changes: the presence commands set the status they
/// name, `enable`/`disable` switch masking on/off, the auto-accept commands
/// switch auto accept on/off; reports and lookups change nothing.
pub proof fn lemma_command_changes(c: HelperCommand, s: HelperSettings)
    ensures
        plan_spec(c, s).1 == match c {
            HelperCommand::Offline => Some(SettingsChange::Status(PresenceStatus::Offline)),
            HelperCommand::Mobile => Some(SettingsChange::Status(PresenceStatus::Mobile)),
            HelperCommand::Online => Some(SettingsChange::Status(PresenceStatus::Chat)),
            HelperCommand::Enable => Some(SettingsChange::Enabled(true)),
            HelperCommand::Disable => Some(SettingsChange::Enabled(false)),
            HelperCommand::AutoAcceptOn => Some(SettingsChange::AutoAccept(true)),
            HelperCommand::AutoAcceptOff => Some(SettingsChange::AutoAccept(false)),
            _ => None,
        },
        plan_spec(c, s).0 is Lookup <==> (c == HelperCommand::Opgg || c == HelperCommand::OpggMulti || c
            == HelperCommand::FriendsSummary),
{
}

pub fn helper_command_plan(command: HelperCommand, settings: &HelperSettings) -> (r: HelperPlan)
    ensures
        (reply_view(r.reply), r.change) == plan_spec(command, *settings),
{
    match command {
        HelperCommand::Offline => HelperPlan {
            reply: HelperReply::Text("You are now appearing offline.".to_owned()),
            change: Some(SettingsChange::Status(PresenceStatus::Offline)),
        },
        HelperCommand::Mobile => HelperPlan {
            reply: HelperReply::Text("You are now appearing mobile.".to_owned()),
            change: Some(SettingsChange::Status(PresenceStatus::Mobile)),
        },
        HelperCommand::Online => HelperPlan {
            reply: HelperReply::Text("You are now appearing online.".to_owned()),
            change: Some(SettingsChange::Status(PresenceStatus::Chat)),
        },
        HelperCommand::Enable => HelperPlan {
            reply: HelperReply::Text("Ghosty is now enabled.".to_owned()),
            change: Some(SettingsChange::Enabled(true)),
        },
        HelperCommand::Disable => HelperPlan {
            reply: HelperReply::Text("Ghosty is now disabled.".to_owned()),
            change: Some(SettingsChange::Enabled(false)),
        },
        HelperCommand::AutoAcceptOn => HelperPlan {
            reply: HelperReply::Text("Auto accept is now enabled.".to_owned()),
            change: Some(SettingsChange::AutoAccept(true)),
        },
        HelperCommand::AutoAcceptOff => HelperPlan {
            reply: HelperReply::Text("Auto accept is now disabled.".to_owned()),
            change: Some(SettingsChange::AutoAccept(false)),
        },
        HelperCommand::AutoAcceptStatus => HelperPlan {
            reply: HelperReply::Text(helper_auto_accept_message(settings)),
            change: None,
        },
        HelperCommand::Opgg => HelperPlan { reply: HelperReply::Lookup(LcuLookup::SummonerLink), change: None },
        HelperCommand::OpggMulti => HelperPlan { reply: HelperReply::Lookup(LcuLookup::LobbyLink), change: None },
        HelperCommand::FriendsSummary => HelperPlan {
            reply: HelperReply::Lookup(LcuLookup::FriendsSummary),
            change: None,
        },
        HelperCommand::Status => HelperPlan { reply: HelperReply::Text(helper_status_message(settings)), change: None },
        HelperCommand::Help => HelperPlan { reply: HelperReply::Text(HELP_MESSAGE.to_owned()), change: None },
    }
}

/// The reply to and change of a command text, if it names a command.
pub fn helper_command_reply_for_text(command: &str, settings: &HelperSettings) -> (r: Option<HelperPlan>)
    ensures
        match command_kind(command@) {
            Some(c) => r matches Some(p) && (reply_view(p.reply), p.change) == plan_spec(c, *settings),
            None => r is None,
        },
{
    match helper_command_kind(command) {
        Some(c) => Some(helper_command_plan(c, settings)),
        None => None,
    }
}

/// The auto-accept state text shown once the flag changes.
pub open spec fn auto_accept_state_for(enabled: bool) -> Seq<char> {
    if enabled {
        "Watching for ready check"@
    } else {
        "Disabled"@
    }
}

impl HelperSettings {
    /// Applies a change: the status, the masking flag, or the auto-accept flag
    /// together with its state text.
    pub fn apply(&mut self, change: SettingsChange)
        ensures
            match change {
                SettingsChange::Status(st) => final(self).status == st && final(self).enabled
                    == old(self).enabled && final(self).auto_accept == old(self).auto_accept
                    && final(self).auto_accept_state@ == old(self).auto_accept_state@,
                SettingsChange::Enabled(b) => final(self).enabled == b && final(self).status
                    == old(self).status && final(self).auto_accept == old(self).auto_accept
                    && final(self).auto_accept_state@ == old(self).auto_accept_state@,
                SettingsChange::AutoAccept(b) => final(self).auto_accept == b
                    && final(self).auto_accept_state@ == auto_accept_state_for(b) && final(self).status
                    == old(self).status && final(self).enabled == old(self).enabled,
            },
    {
        match change {
            SettingsChange::Status(st) => self.status = st,
            SettingsChange::Enabled(b) => self.enabled = b,
            SettingsChange::AutoAccept(b) => {
                self.auto_accept = b;
                self.auto_accept_state = if b {
                    "Watching for ready check".to_owned()
                } else {
                    "Disabled".to_owned()
                };
            },
        }
    }
}

impl SettingsChange {
    /// What is stored for a change before it is applied: a new status or
    /// auto-accept flag is saved; the masking flag is not.
    pub fn stored_setting(&self) -> (r: Option<StoredSetting>)
        ensures
            match *self {
                SettingsChange::Status(st) => r matches Some(s) && s.file@ == "status"@ && s.bytes@
                    == vstd::utf8::encode_utf8(xmpp_show(st)),
                SettingsChange::AutoAccept(b) => r matches Some(s) && s.file@ == "autoAccept"@
                    && s.bytes@ == vstd::utf8::encode_utf8(crate::persistence::flag_text(b)),
                SettingsChange::Enabled(_) => r is None,
            },
    {
        match self {
            SettingsChange::Status(st) => Some(write_session_status(*st)),
            SettingsChange::AutoAccept(b) => Some(write_auto_accept(*b)),
            SettingsChange::Enabled(_) => None,
        }
    }
}

// ---------------------------------------------------------------------------
// Messages to the helper friend in the client's stream
// ---------------------------------------------------------------------------

/// Whether an element is a message to the helper (its `to` is the helper's
/// JID, bare or with a resource).
pub open spec fn is_addressed_helper(e: XmlElementView, jid: Seq<char>) -> bool {
    &&& e.name == "message"@
    &&& match attribute(e.attributes, "to"@) {
        Some(to) => to == jid || starts_with(to, jid + "/"@),
        None => false,
    }
}

/// The text of a message's `body`.
pub open spec fn body_text(e: XmlElementView) -> Option<Seq<char>> {
    if e.name == "message"@ {
        match child(e, "body"@) {
            Some(b) => text_of(b.children),
            None => None,
        }
    } else {
        None
    }
}

fn name_is(e: &XmlElement, literal: &str) -> (r: bool)
    ensures
        r == (e@.name == literal@),
{
    let a = chars_of(e.name.as_str());
    let b = chars_of(literal);
    seq_eq(a.as_slice(), b.as_slice())
}

pub fn is_addressed_helper_message(e: &XmlElement, helper_jid: &str) -> (r: bool)
    ensures
        r == is_addressed_helper(e@, helper_jid@),
{
    if !name_is(e, "message") {
        return false;
    }
    let to = match get_attribute(e, "to") {
        Some(to) => to,
        None => return false,
    };
    let tv = chars_of(to.as_str());
    let jv = chars_of(helper_jid);
    if seq_eq(tv.as_slice(), jv.as_slice()) {
        return true;
    }
    let prefix = concat2(helper_jid, "/");
    let pv = chars_of(prefix.as_str());
    match_at(tv.as_slice(), pv.as_slice(), 0)
}

pub fn message_body_text(e: &XmlElement) -> (r: Option<String>)
    ensures
        opt_chars(r) == body_text(e@),
{
    if !name_is(e, "message") {
        return None;
    }
    match child_index(e, "body") {
        Some(i) => {
            proof {
                lemma_nodes_view(e.children@);
                assert(has_child(e@.children, "body"@));
                let j = choose|j: int| is_first_child(e@.children, "body"@, j);
                lemma_has_first_child(e@.children, "body"@);
                lemma_first_child_unique(e@.children, "body"@, i as int, j);
            }
            match &e.children[i] {
                XmlNode::Element(b) => get_text(b),
                _ => None,
            }
        },
        None => None,
    }
}

/// A command found in the client's stream and the stanzas to forward.
#[derive(Debug)]
pub struct HelperCommandExtract {
    pub command: Option<String>,
    pub passthrough: String,
}

/// Reading a fragment's nodes in order: the first command found in a message
/// to the helper, the other nodes written out (text and CDATA kept), and
/// whether a message to the helper was seen; `None` once writing fails.
pub open spec fn extract_fold(nodes: Seq<XmlNodeView>, jid: Seq<char>) -> Option<(Option<Seq<char>>, Seq<char>, bool)>
    decreases nodes.len(),
{
    if nodes.len() == 0 {
        Some((None, seq![], false))
    } else {
        match extract_fold(nodes.drop_last(), jid) {
            None => None,
            Some(acc) => match nodes.last() {
                XmlNodeView::Element(e) => if is_addressed_helper(e, jid) {
                    Some((if acc.0 is None { body_text(e) } else { acc.0 }, acc.1, true))
                } else {
                    match element_text_of(e) {
                        Some(t) => Some((acc.0, acc.1 + t, acc.2)),
                        None => None,
                    }
                },
                XmlNodeView::Text(t) => Some((acc.0, acc.1 + t, acc.2)),
                XmlNodeView::CData(t) => Some((acc.0, acc.1 + t, acc.2)),
                _ => Some(acc),
            },
        }
    }
}

/// The command a fragment sends the helper and the stanzas to forward: a
/// whole message to the helper is taken as is; otherwise the fragment's
/// stanzas are read one by one. `None` when nothing is addressed to the
/// helper or the fragment does not read as XML.
pub open spec fn extract_spec(content: Seq<char>, jid: Seq<char>) -> Option<(Option<Seq<char>>, Seq<char>)> {
    match document_parse(content) {
        Some(d) if is_addressed_helper(d, jid) => Some((body_text(d), seq![])),
        _ => match fragment_parse(content) {
            None => None,
            Some(root) => extract_from_fragment(root, jid),
        },
    }
}

/// The command of a parsed fragment holding messages to the helper, and the
/// rest of the fragment written back; `None` when no message is addressed to
/// the helper or writing the rest fails.
pub open spec fn extract_from_fragment(root: XmlElementView, jid: Seq<char>) -> Option<(Option<Seq<char>>, Seq<char>)> {
    match extract_fold(root.children, jid) {
        Some(acc) => if acc.2 {
            Some((acc.0, acc.1))
        } else {
            None
        },
        None => None,
    }
}

proof fn lemma_extract_fold_stuck(nodes: Seq<XmlNodeView>, jid: Seq<char>, j: int)
    requires
        0 <= j <= nodes.len(),
        extract_fold(nodes.take(j), jid) is None,
    ensures
        extract_fold(nodes, jid) is None,
    decreases nodes.len() - j,
{
    if j < nodes.len() {
        assert(nodes.take(j + 1).drop_last() =~= nodes.take(j));
        lemma_extract_fold_stuck(nodes, jid, j + 1);
    } else {
        assert(nodes.take(j) =~= nodes);
    }
}

pub open spec fn extract_view(r: Option<HelperCommandExtract>) -> Option<(Option<Seq<char>>, Seq<char>)> {
    match r {
        Some(x) => Some((opt_chars(x.command), x.passthrough@)),
        None => None,
    }
}

pub fn helper_command_extract_to(content: &str, helper_jid: &str) -> (r: Option<HelperCommandExtract>)
    ensures
        extract_view(r) == extract_spec(content@, helper_jid@),
{
    match parse_document(content) {
        Some(d) => {
            if let Some(x) = helper_command_from_message(&d, helper_jid) {
                return Some(x);
            }
        },
        None => {},
    }
    match parse_fragment(content) {
        Some(root) => helper_command_extract_from(&root, helper_jid),
        None => None,
    }
}

/// A parsed message addressed to the helper: its body is the command and
/// nothing goes on; `None` for any other element.
pub fn helper_command_from_message(message: &XmlElement, helper_jid: &str) -> (r: Option<HelperCommandExtract>)
    ensures
        extract_view(r) == if is_addressed_helper(message@, helper_jid@) {
            Some((body_text(message@), Seq::<char>::empty()))
        } else {
            None
        },
{
    if is_addressed_helper_message(message, helper_jid) {
        Some(HelperCommandExtract { command: message_body_text(message), passthrough: String::new() })
    } else {
        None
    }
}

/// The command of a parsed fragment (see `extract_from_fragment`).
pub fn helper_command_extract_from(root: &XmlElement, helper_jid: &str) -> (r: Option<HelperCommandExtract>)
    ensures
        extract_view(r) == extract_from_fragment(root@, helper_jid@),
{
    let mut command: Option<String> = None;
    let mut found = false;
    let mut passthrough = String::new();
    let mut i: usize = 0;
    proof {
        lemma_nodes_view(root.children@);
        assert(root@.children.take(0) =~= Seq::<XmlNodeView>::empty());
    }
    while i < root.children.len()
        invariant
            i <= root.children@.len() == root@.children.len(),
            root@.children == nodes_view(root.children@),
            forall|k: int| 0 <= k < root.children@.len() ==> #[trigger] root@.children[k] == node_view(root.children@[k]),
            extract_fold(root@.children.take(i as int), helper_jid@) == Some((opt_chars(command), passthrough@, found)),
        decreases root.children@.len() - i,
    {
        let ghost prefix = root@.children.take(i + 1);
        assert(prefix.drop_last() =~= root@.children.take(i as int));
        assert(prefix.last() == node_view(root.children@[i as int]));
        match &root.children[i] {
            XmlNode::Element(e) => {
                if is_addressed_helper_message(e, helper_jid) {
                    found = true;
                    if command.is_none() {
                        command = message_body_text(e);
                    }
                } else {
                    match serialize_element(e) {
                        Some(t) => push_str(&mut passthrough, t.as_str()),
                        None => {
                            proof {
                                lemma_extract_fold_stuck(root@.children, helper_jid@, i + 1);
                            }
                            return None;
                        },
                    }
                }
            },
            XmlNode::Text(t) => push_str(&mut passthrough, t.as_str()),
            XmlNode::CData(t) => push_str(&mut passthrough, t.as_str()),
            _ => {},
        }
        i += 1;
    }
    assert(root@.children.take(root.children@.len() as int) =~= root@.children);
    if found {
        Some(HelperCommandExtract { command, passthrough })
    } else {
        None
    }
}

/// The body text of the first message in a fragment (whole or among
/// several stanzas).
pub open spec fn command_text_spec(content: Seq<char>) -> Option<Seq<char>> {
    match document_parse(content) {
        Some(d) if body_text(d) is Some => body_text(d),
        _ => match fragment_parse(content) {
            None => None,
            Some(root) => first_body(root.children),
        },
    }
}

pub open spec fn first_body(nodes: Seq<XmlNodeView>) -> Option<Seq<char>>
    decreases nodes.len(),
{
    if nodes.len() == 0 {
        None
    } else {
        match nodes[0] {
            XmlNodeView::Element(e) if body_text(e) is Some => body_text(e),
            _ => first_body(nodes.drop_first()),
        }
    }
}

pub fn helper_command_text(content: &str) -> (r: Option<String>)
    ensures
        opt_chars(r) == command_text_spec(content@),
{
    match parse_document(content) {
        Some(d) => match message_body_text(&d) {
            Some(t) => return Some(t),
            None => {},
        },
        None => {},
    }
    let root = match parse_fragment(content) {
        Some(root) => root,
        None => return None,
    };
    let mut i: usize = 0;
    proof {
        lemma_nodes_view(root.children@);
        assert(root@.children.skip(0) =~= root@.children);
    }
    while i < root.children.len()
        invariant
            i <= root.children@.len() == root@.children.len(),
            root@.children == nodes_view(root.children@),
            forall|k: int| 0 <= k < root.children@.len() ==> #[trigger] root@.children[k] == node_view(root.children@[k]),
            first_body(root@.children) == first_body(root@.children.skip(i as int)),
            fragment_parse(content@) == Some(root@),
            !(document_parse(content@) matches Some(d) && body_text(d) is Some),
        decreases root.children@.len() - i,
    {
        assert(root@.children.skip(i as int)[0] == node_view(root.children@[i as int]));
        assert(root@.children.skip(i as int).drop_first() =~= root@.children.skip(i + 1));
        match &root.children[i] {
            XmlNode::Element(e) => match message_body_text(e) {
                Some(t) => return Some(t),
                None => {},
            },
            _ => {},
        }
        i += 1;
    }
    None
}

/// The reply and change for a fragment holding a command, given the settings
/// (the helper command of a whole fragment, for the command tests and the
/// stream).
pub fn helper_command_reply(content: &str, settings: &HelperSettings) -> (r: Option<HelperPlan>)
    ensures
        match command_text_spec(content@) {
            Some(t) => match command_kind(t) {
                Some(c) => r matches Some(p) && (reply_view(p.reply), p.change) == plan_spec(c, *settings),
                None => r is None,
            },
            None => r is None,
        },
{
    match helper_command_text(content) {
        Some(t) => helper_command_reply_for_text(t.as_str(), settings),
        None => None,
    }
}

// ---------------------------------------------------------------------------
// Buffering messages split across reads
// ---------------------------------------------------------------------------

pub const MESSAGE_MARKER: &'static str = "<message";

pub const MAX_PENDING_BYTES: usize = 64 * 1024;

/// Whether a fragment may hold the start of a message not yet complete.
pub open spec fn should_buffer_message_spec(c: Seq<char>) -> bool {
    partial_marker_tail(c, MESSAGE_MARKER@) > 0 || (contains(c, MESSAGE_MARKER@) && !contains(
        c,
        "</message>"@,
    ))
}

fn should_buffer_message_fragment(content: &str) -> (r: bool)
    ensures
        r == should_buffer_message_spec(content@),
{
    let c = chars_of(content);
    let m = chars_of(MESSAGE_MARKER);
    partial_marker_tail_len(c.as_slice(), m.as_slice()) > 0 || (str_contains(content, MESSAGE_MARKER)
        && !str_contains(content, "</message>"))
}

/// Whether buffered text should wait for more: it is small enough, holds or
/// ends with the start of a message, and no message has ended.
pub open spec fn buffer_should_wait_spec(c: Seq<char>) -> bool {
    &&& encode_utf8(c).len() <= MAX_PENDING_BYTES
    &&& (contains(c, MESSAGE_MARKER@) || partial_marker_tail(c, MESSAGE_MARKER@) > 0)
    &&& !contains(c, "</message>"@)
}

fn helper_command_buffer_should_wait(content: &str) -> (r: bool)
    ensures
        r == buffer_should_wait_spec(content@),
{
    let c = chars_of(content);
    let m = chars_of(MESSAGE_MARKER);
    content.as_bytes().len() <= MAX_PENDING_BYTES && (str_contains(content, MESSAGE_MARKER)
        || partial_marker_tail_len(c.as_slice(), m.as_slice()) > 0) && !str_contains(content, "</message>")
}

/// What a chunk of client traffic becomes for the helper.
#[derive(Debug)]
pub enum HelperCommandResult {
    /// Not for the helper: forward the chunk as it is.
    NotHelper,
    /// Part of a message that may be for the helper: wait for more.
    Pending,
    /// Done: the reply and change of a command, if any, and what to forward.
    Complete { plan: Option<HelperPlan>, passthrough: Vec<u8> },
}

pub enum ResultView {
    NotHelper,
    Pending,
    Complete { plan: Option<(ReplyView, Option<SettingsChange>)>, passthrough: Seq<u8> },
}

pub open spec fn result_view(r: HelperCommandResult) -> ResultView {
    match r {
        HelperCommandResult::NotHelper => ResultView::NotHelper,
        HelperCommandResult::Pending => ResultView::Pending,
        HelperCommandResult::Complete { plan, passthrough } => ResultView::Complete {
            plan: match plan {
                Some(p) => Some((reply_view(p.reply), p.change)),
                None => None,
            },
            passthrough: passthrough@,
        },
    }
}

/// The plan for a command text found in a message to the helper.
pub open spec fn plan_for(command: Option<Seq<char>>, s: HelperSettings) -> Option<(ReplyView, Option<SettingsChange>)> {
    match command {
        Some(t) => match command_kind(t) {
            Some(c) => Some(plan_spec(c, s)),
            None => None,
        },
        None => None,
    }
}

/// One chunk through the helper buffer: the text it keeps and the result.
pub open spec fn helper_buffer_step(
    pending: Seq<char>,
    content: Seq<char>,
    jid: Seq<char>,
    s: HelperSettings,
) -> (Seq<char>, ResultView) {
    if pending.len() == 0 && !contains_helper_message_spec(content, jid) && !should_buffer_message_spec(
        content,
    ) {
        (pending, ResultView::NotHelper)
    } else {
        let p = pending + content;
        match extract_spec(p, jid) {
            Some(x) => (
                seq![],
                ResultView::Complete { plan: plan_for(x.0, s), passthrough: encode_utf8(x.1) },
            ),
            None => if contains(p, "</message>"@) || encode_utf8(p).len() > MAX_PENDING_BYTES
                || !buffer_should_wait_spec(p) {
                (seq![], ResultView::Complete { plan: None, passthrough: encode_utf8(p) })
            } else {
                (p, ResultView::Pending)
            },
        }
    }
}

/// Client text that holds no message to the helper, and no start of one,
/// passes an empty helper buffer untouched: nothing is kept and it goes on as
/// it came.
pub proof fn lemma_plain_text_not_held(content: Seq<char>, jid: Seq<char>, s: HelperSettings)
    requires
        !contains_helper_message_spec(content, jid),
        !should_buffer_message_spec(content),
    ensures
        helper_buffer_step(seq![], content, jid, s) == (Seq::<char>::empty(), ResultView::NotHelper),
{
}

/// Holds client traffic that may be a message to the helper until it is
/// complete.
#[derive(Debug)]
pub struct HelperCommandBuffer {
    pub pending: String,
    pub helper_jid: String,
}

impl HelperCommandBuffer {
    pub fn new(helper_jid: String) -> (r: Self)
        ensures
            r.pending@.len() == 0,
            r.helper_jid@ == helper_jid@,
    {
        HelperCommandBuffer { pending: String::new(), helper_jid }
    }

    /// Takes one chunk of client traffic (see `helper_buffer_step`).
    pub fn push(&mut self, content: &str, settings: &HelperSettings) -> (r: HelperCommandResult)
        ensures
            final(self).helper_jid@ == old(self).helper_jid@,
            (final(self).pending@, result_view(r)) == helper_buffer_step(
                old(self).pending@,
                content@,
                old(self).helper_jid@,
                *settings,
            ),
    {
        if self.pending.as_str().is_empty() && !contains_helper_message(content, self.helper_jid.as_str())
            && !should_buffer_message_fragment(content) {
            return HelperCommandResult::NotHelper;
        }
        push_str(&mut self.pending, content);
        match helper_command_extract_to(self.pending.as_str(), self.helper_jid.as_str()) {
            Some(extract) => {
                let plan = match &extract.command {
                    Some(t) => helper_command_reply_for_text(t.as_str(), settings),
                    None => None,
                };
                self.pending = String::new();
                return HelperCommandResult::Complete {
                    plan,
                    passthrough: string_bytes(extract.passthrough.as_str()),
                };
            },
            None => {},
        }
        if str_contains(self.pending.as_str(), "</message>") || self.pending.as_str().as_bytes().len() > MAX_PENDING_BYTES
            || !helper_command_buffer_should_wait(self.pending.as_str()) {
            let passthrough = string_bytes(self.pending.as_str());
            self.pending = String::new();
            return HelperCommandResult::Complete { plan: None, passthrough };
        }
        HelperCommandResult::Pending
    }

    /// Drops a partial message (the connection it came from is gone).
    pub fn clear(&mut self)
        ensures
            final(self).pending@.len() == 0,
            final(self).helper_jid@ == old(self).helper_jid@,
    {
        self.pending = String::new();
    }
}

} // verus!
