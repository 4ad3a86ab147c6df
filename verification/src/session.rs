//! One proxied chat connection between the Riot Client and the Riot chat
//! server: what each read from either side becomes. The caller does the
//! reading and writing and performs the actions handed back.
use vstd::prelude::*;

use vstd::utf8::{decode_utf8, encode_utf8, valid_utf8};

use crate::config_proxy::PatchedChatServer;
use crate::helper::{
    helper_buffer_step, helper_intro_message, result_view, ReplyView, ResultView, HelperCommandBuffer, HelperCommandResult, HelperReply, HelperSettings, LcuLookup,
    SettingsChange,
};
use crate::jid::{
    jid_domain_map, jid_domain_map_spec, jid_domain_summary, jid_domains, pair_views, rewrite_attrs, rewrite_jid_attribute_domains_from_map,
    DomainMap,
};
use crate::models::{LogLevel, PresenceStatus};
use crate::presence::{
    contains_roster_marker, flushed, helper_chat_message, helper_jid_for_chat_identity, helper_presence,
    helper_roster_push, out_view, presence_step, roster_item_count, ClientPresenceBuffer, ROSTER_NAMESPACE, PresenceBufferView,
    XmlWriteError,
};
use crate::stream::{chunk_view, handed_on, joined_reads, lemma_utf8_push_keeps_bytes, utf8_push_spec, ChunkView, PresenceStats, StartupPresenceReplay, Utf8Chunk, Utf8StreamBuffer};
use crate::text::{chars_of, concat2, concat3, contains, decimal, decimal_string, owned, push_str, str_contains, utf8_str};

verus! {

/// What the caller is to do after a read.
#[derive(Debug)]
pub enum Action {
    /// Send these bytes to the Riot chat server; the text names the flow
    /// for the stream log.
    ToServer(String, Vec<u8>),
    /// Send these bytes to the Riot Client.
    ToClient(String, Vec<u8>),
    /// Add a chat line to the log.
    Log(LogLevel, String),
    /// Apply a helper command's settings change.
    Change(SettingsChange),
    /// Answer a helper command with a League Client lookup, sent to the
    /// client as a helper message.
    Lookup(LcuLookup),
}

/// The settings as they stand when a read comes.
pub struct Live {
    pub helper_friend: bool,
    pub safe_mode: bool,
    pub connect_to_muc: bool,
    pub settings: HelperSettings,
}

/// The bytes a list of actions sends to the server, in order.
pub open spec fn to_server(actions: Seq<Action>) -> Seq<u8>
    decreases actions.len(),
{
    if actions.len() == 0 {
        seq![]
    } else {
        to_server(actions.drop_last()) + match actions.last() {
            Action::ToServer(_, b) => b@,
            _ => seq![],
        }
    }
}

/// The bytes a list of actions sends to the client, in order.
pub open spec fn to_client(actions: Seq<Action>) -> Seq<u8>
    decreases actions.len(),
{
    if actions.len() == 0 {
        seq![]
    } else {
        to_client(actions.drop_last()) + match actions.last() {
            Action::ToClient(_, b) => b@,
            _ => seq![],
        }
    }
}

/// `b` starts with `a`.
pub open spec fn keeps(a: Seq<Action>, b: Seq<Action>) -> bool {
    &&& a.len() <= b.len()
    &&& forall|k: int| 0 <= k < a.len() ==> b[k] == a[k]
}

fn push_action(actions: &mut Vec<Action>, a: Action)
    ensures
        final(actions)@ == old(actions)@.push(a),
        to_server(final(actions)@) == to_server(old(actions)@) + match a {
            Action::ToServer(_, b) => b@,
            _ => seq![],
        },
        to_client(final(actions)@) == to_client(old(actions)@) + match a {
            Action::ToClient(_, b) => b@,
            _ => seq![],
        },
{
    let ghost before = actions@;
    actions.push(a);
    assert(actions@.drop_last() =~= before);
}

/// Sends bytes to the server unless there are none.
fn send_server(actions: &mut Vec<Action>, label: &str, bytes: Vec<u8>)
    ensures
        keeps(old(actions)@, final(actions)@),
        to_server(final(actions)@) == to_server(old(actions)@) + bytes@,
        to_client(final(actions)@) == to_client(old(actions)@),
{
    if bytes.len() > 0 {
        push_action(actions, Action::ToServer(owned(label), bytes));
    } else {
        assert(to_server(old(actions)@) + bytes@ =~= to_server(old(actions)@));
    }
}

/// Sends bytes to the client unless there are none.
fn send_client(actions: &mut Vec<Action>, label: &str, bytes: Vec<u8>)
    ensures
        keeps(old(actions)@, final(actions)@),
        bytes@.len() == 0 ==> final(actions)@ == old(actions)@,
        bytes@.len() > 0 ==> final(actions)@.len() == old(actions)@.len() + 1,
        to_client(final(actions)@) == to_client(old(actions)@) + bytes@,
        to_server(final(actions)@) == to_server(old(actions)@),
{
    if bytes.len() > 0 {
        push_action(actions, Action::ToClient(owned(label), bytes));
    } else {
        assert(to_client(old(actions)@) + bytes@ =~= to_client(old(actions)@));
    }
}

fn log_info(actions: &mut Vec<Action>, message: String)
    ensures
        keeps(old(actions)@, final(actions)@),
        final(actions)@.len() == old(actions)@.len() + 1,
        final(actions)@.last() == Action::Log(LogLevel::Info, message),
        to_server(final(actions)@) == to_server(old(actions)@),
        to_client(final(actions)@) == to_client(old(actions)@),
{
    push_action(actions, Action::Log(LogLevel::Info, message));
}

/// The presence of a read from the server counted, and the masked presence
/// sent once the counts show the client warmed up.
fn count_server_presence(
    stats: &mut PresenceStats,
    buffer: &mut ClientPresenceBuffer,
    actions: &mut Vec<Action>,
    text: &str,
)
    ensures
        final(stats).recorded_from(*old(stats), text@),
        final(buffer)@ == if final(stats).warmed_up() {
            PresenceBufferView { warmup_masked_presence: None, ..old(buffer)@ }
        } else {
            old(buffer)@
        },
        to_client(final(actions)@) == to_client(old(actions)@),
        to_server(final(actions)@) == to_server(old(actions)@) + match old(buffer)@.warmup_masked_presence {
            Some(m) => if final(stats).warmed_up() {
                m
            } else {
                Seq::<u8>::empty()
            },
            None => Seq::<u8>::empty(),
        },
{
    if stats.can_record(text) {
        if let Some(m) = stats.record_server_batch(text) {
            log_info(actions, m);
        }
    }
    let ghost before = to_server(actions@);
    if stats.is_warmup_ready() {
        if let Some(masked) = buffer.take_warmup_masked_presence() {
            send_server(actions, "ghosty -> riot presence warmup mask", masked);
            log_info(actions, owned("Finished initial presence warmup and restored masked status"));
        } else {
            assert(to_server(actions@) =~= before + Seq::<u8>::empty());
        }
    } else {
        assert(to_server(actions@) =~= before + Seq::<u8>::empty());
    }
}

/// Whether a server read adds the helper friend to the roster: the helper
/// friend is on, the startup replay was sent, and it was not added yet.
pub open spec fn adds_helper_roster(s: ChatSession, replayed: bool, live: Live) -> bool {
    live.helper_friend && replayed && !s.sent_helper_roster
}

/// Whether a server read sends the helper friend's presence: it is on, in the
/// roster (or added by this read), and its presence was not sent yet.
pub open spec fn sends_helper_presence(s: ChatSession, replayed: bool, live: Live) -> bool {
    live.helper_friend && (s.inserted_helper_friend || adds_helper_roster(s, replayed, live))
        && !s.sent_helper_presence
}

/// Whether a server read sends the helper friend's status message: with its
/// presence, or on its own where the presence went earlier and the message
/// did not.
pub open spec fn sends_helper_intro(s: ChatSession, replayed: bool, live: Live) -> bool {
    ||| sends_helper_presence(s, replayed, live)
    ||| (live.helper_friend && (s.inserted_helper_friend || adds_helper_roster(s, replayed, live))
        && s.sent_helper_presence && !s.sent_helper_intro)
}

/// The bytes a server read sends the client to add the helper friend, in
/// order: the roster push, the presence, the status message (each where it is
/// due, see above), stamped with the given times.
pub open spec fn helper_friend_bytes(
    s: ChatSession,
    replayed: bool,
    live: Live,
    roster_time: int,
    presence_time: int,
    stamp: Seq<char>,
) -> Seq<u8> {
    let jid = s.helper_jid@;
    (if adds_helper_roster(s, replayed, live) {
        encode_utf8(crate::presence::helper_roster_push_spec(jid, roster_time))
    } else {
        Seq::<u8>::empty()
    }) + (if sends_helper_presence(s, replayed, live) {
        encode_utf8(crate::presence::helper_presence_spec(jid, crate::presence::opt_chars(s.valorant_version), presence_time))
    } else {
        Seq::<u8>::empty()
    }) + (if sends_helper_intro(s, replayed, live) {
        encode_utf8(crate::presence::helper_chat_message_spec(jid, crate::helper::status_message_spec(live.settings), stamp))
    } else {
        Seq::<u8>::empty()
    })
}

/// What a read from the server passes on to the client: its complete text or
/// bytes, with JID domains made to match the roster's (see `client_bound`).
pub open spec fn passed_to_client(chunk: ChunkView, domains: Seq<(Seq<char>, Seq<char>)>) -> Seq<u8> {
    match chunk {
        ChunkView::Pending => Seq::<u8>::empty(),
        ChunkView::Binary(b) => if b.len() == 0 {
            Seq::<u8>::empty()
        } else {
            client_bound(b, domains)
        },
        ChunkView::Text(_, b) => if b.len() == 0 {
            Seq::<u8>::empty()
        } else {
            client_bound(b, domains)
        },
    }
}

/// One read from the client in safe mode without the helper friend: what
/// goes to the server is what the UTF-8 buffer hands on, and the buffer keeps
/// the rest (see `utf8_push_spec`).
pub open spec fn safe_client_step(pending_before: Seq<u8>, bytes: Seq<u8>, pending_after: Seq<u8>, sent: Seq<u8>) -> bool {
    &&& sent == handed_on(utf8_push_spec(pending_before, bytes).0)
    &&& pending_after == utf8_push_spec(pending_before, bytes).1
}

proof fn lemma_safe_prefix(reads: Seq<Seq<u8>>, pendings: Seq<Seq<u8>>, sents: Seq<Seq<u8>>, n: int)
    requires
        0 <= n <= reads.len(),
        pendings.len() == reads.len() + 1,
        sents.len() == reads.len(),
        pendings[0].len() == 0,
        forall|i: int| 0 <= i < reads.len() ==> safe_client_step(pendings[i], #[trigger] reads[i], pendings[i + 1], sents[i]),
    ensures
        joined_reads(sents.take(n)) + pendings[n] == joined_reads(reads.take(n)),
    decreases n,
{
    if n == 0 {
        assert(sents.take(0) =~= Seq::<Seq<u8>>::empty());
        assert(reads.take(0) =~= Seq::<Seq<u8>>::empty());
        assert(Seq::<u8>::empty() + pendings[0] =~= Seq::<u8>::empty());
    } else {
        lemma_safe_prefix(reads, pendings, sents, n - 1);
        let i = n - 1;
        assert(safe_client_step(pendings[i], reads[i], pendings[i + 1], sents[i]));
        lemma_utf8_push_keeps_bytes(pendings[i], reads[i]);
        assert(sents.take(n).drop_last() =~= sents.take(i));
        assert(reads.take(n).drop_last() =~= reads.take(i));
        assert(sents.take(n).last() == sents[i]);
        assert(reads.take(n).last() == reads[i]);
        let js = joined_reads(sents.take(i));
        let jr = joined_reads(reads.take(i));
        assert(js + sents[i] + pendings[n] =~= js + (sents[i] + pendings[n]));
        assert(jr + reads[i] =~= (js + pendings[i]) + reads[i]);
        assert((js + pendings[i]) + reads[i] =~= js + (pendings[i] + reads[i]));
    }
}

/// In safe mode without the helper friend, a connection passes the client's
/// reads to the server unchanged: reads `c1 .. ck` from a new session (see
/// `ChatSession::on_client_data`), then what the buffer still holds when the
/// client closes (see `ChatSession::on_client_closed`), are `c1 ++ .. ++ ck`.
pub proof fn lemma_safe_mode_passthrough(reads: Seq<Seq<u8>>, pendings: Seq<Seq<u8>>, sents: Seq<Seq<u8>>)
    requires
        pendings.len() == reads.len() + 1,
        sents.len() == reads.len(),
        pendings[0].len() == 0,
        forall|i: int| 0 <= i < reads.len() ==> safe_client_step(pendings[i], #[trigger] reads[i], pendings[i + 1], sents[i]),
    ensures
        joined_reads(sents) + pendings[reads.len() as int] == joined_reads(reads),
{
    lemma_safe_prefix(reads, pendings, sents, reads.len() as int);
    assert(sents.take(reads.len() as int) =~= sents);
    assert(reads.take(reads.len() as int) =~= reads);
}

/// The error of writing presence, if that is how it ended.
pub open spec fn write_error(r: Result<Seq<u8>, XmlWriteError>) -> Option<XmlWriteError> {
    match r {
        Ok(_) => None,
        Err(e) => Some(e),
    }
}

/// How a read from the client fails: only where its text goes through the
/// presence buffer (not in safe mode, and not held or taken whole by the
/// helper command buffer) and the presence written there cannot be written
/// (see `presence_step`); then with that error.
pub open spec fn client_data_error(s: ChatSession, bytes: Seq<u8>, live: Live) -> Option<XmlWriteError> {
    let version = crate::presence::opt_chars(s.valorant_version);
    match utf8_push_spec(s.incoming_text_buffer.pending@, bytes).0 {
        ChunkView::Text(content, _) => if live.safe_mode {
            None
        } else if !live.helper_friend {
            write_error(
                presence_step(
                    s.presence_buffer@,
                    content,
                    live.settings.enabled,
                    live.settings.status,
                    live.connect_to_muc,
                    version,
                ).1,
            )
        } else {
            match helper_buffer_step(s.helper_command_buffer.pending@, content, s.helper_jid@, live.settings).1 {
                ResultView::NotHelper => write_error(
                    presence_step(
                        s.presence_buffer@,
                        content,
                        live.settings.enabled,
                        live.settings.status,
                        live.connect_to_muc,
                        version,
                    ).1,
                ),
                ResultView::Complete { plan, passthrough } => {
                    let change = match plan {
                        Some(pl) => pl.1,
                        None => None,
                    };
                    if passthrough.len() > 0 && valid_utf8(passthrough) {
                        write_error(
                            presence_step(
                                s.presence_buffer@,
                                decode_utf8(passthrough),
                                enabled_after(live.settings.enabled, change),
                                status_after(live.settings.status, change),
                                live.connect_to_muc,
                                version,
                            ).1,
                        )
                    } else {
                        None
                    }
                },
                ResultView::Pending => None,
            }
        },
        _ => None,
    }
}

/// The plan of a helper command that a client text chunk completes, if any.
pub open spec fn helper_plan_of(
    chunk: ChunkView,
    pending: Seq<char>,
    jid: Seq<char>,
    settings: HelperSettings,
) -> Option<(ReplyView, Option<SettingsChange>)> {
    match chunk {
        ChunkView::Text(content, _) => match helper_buffer_step(pending, content, jid, settings).1 {
            ResultView::Complete { plan, passthrough: _ } => plan,
            _ => None,
        },
        _ => None,
    }
}

/// What server bytes become on their way to the client: where the roster's
/// JID domains are known and the bytes are text, `from` attributes get the
/// roster's domains (when any changes).
pub open spec fn client_bound(bytes: Seq<u8>, domains: Seq<(Seq<char>, Seq<char>)>) -> Seq<u8> {
    if domains.len() == 0 || !valid_utf8(bytes) {
        bytes
    } else {
        let x = rewrite_attrs(decode_utf8(bytes), "from"@, domains);
        if x.1 {
            encode_utf8(x.0)
        } else {
            bytes
        }
    }
}

proof fn lemma_prefix_grows(a: Seq<u8>, b: Seq<u8>, c: Seq<u8>)
    requires
        a.is_prefix_of(b),
    ensures
        a.is_prefix_of(b + c),
{
    assert((b + c).subrange(0, a.len() as int) =~= b.subrange(0, a.len() as int));
}

/// The bytes to the client begin with a helper message of the given text
/// (its stamp is the time it was written).
pub open spec fn starts_with_helper_message(client: Seq<u8>, jid: Seq<char>, text: Seq<char>) -> bool {
    exists|stamp: Seq<char>| #[trigger] encode_utf8(
        crate::presence::helper_chat_message_spec(jid, text, stamp),
    ).is_prefix_of(client)
}

proof fn lemma_reply_kept(reply: Option<Seq<char>>, start: Seq<u8>, client: Seq<u8>, jid: Seq<char>)
    requires
        start.is_prefix_of(client),
        reply matches Some(t) ==> starts_with_helper_message(start, jid, t),
    ensures
        reply matches Some(t) ==> starts_with_helper_message(client, jid, t),
{
    if let Some(t) = reply {
        let stamp = choose|stamp: Seq<char>| #[trigger] encode_utf8(
            crate::presence::helper_chat_message_spec(jid, t, stamp),
        ).is_prefix_of(start);
        let m = encode_utf8(crate::presence::helper_chat_message_spec(jid, t, stamp));
        assert(client.subrange(0, m.len() as int) =~= start.subrange(0, m.len() as int));
        assert(m.is_prefix_of(client));
    }
}

/// The masking flag once a helper command's change is applied.
pub open spec fn enabled_after(enabled: bool, change: Option<SettingsChange>) -> bool {
    match change {
        Some(SettingsChange::Enabled(b)) => b,
        _ => enabled,
    }
}

/// The presence status once a helper command's change is applied.
pub open spec fn status_after(status: PresenceStatus, change: Option<SettingsChange>) -> PresenceStatus {
    match change {
        Some(SettingsChange::Status(st)) => st,
        _ => status,
    }
}

/// The state of one proxied connection.
pub struct ChatSession {
    pub helper_jid: String,
    pub valorant_version: Option<String>,
    pub logged_client_flow: bool,
    pub logged_server_flow: bool,
    pub logged_client_presence: bool,
    pub logged_server_presence: bool,
    pub inserted_helper_friend: bool,
    pub sent_helper_roster: bool,
    pub sent_helper_presence: bool,
    pub refreshed_helper_presence_after_client_presence: bool,
    pub sent_helper_intro: bool,
    pub logged_roster_without_helper: bool,
    pub startup_roster_ready: bool,
    pub startup_presence_replay: StartupPresenceReplay,
    pub helper_command_buffer: HelperCommandBuffer,
    pub presence_buffer: ClientPresenceBuffer,
    pub server_presence_stats: PresenceStats,
    pub roster_jid_domains: DomainMap,
    pub roster_domains_logged: bool,
    pub logged_presence_domain_normalization: bool,
    pub incoming_text_buffer: Utf8StreamBuffer,
    pub outgoing_text_buffer: Utf8StreamBuffer,
    pub was_helper_friend_enabled: bool,
}

impl ChatSession {
    /// Everything but the presence buffer and the VALORANT version is as in
    /// `other`.
    pub open spec fn frame(&self, other: &ChatSession) -> bool {
        &&& self.helper_jid == other.helper_jid
        &&& self.logged_client_flow == other.logged_client_flow
        &&& self.logged_server_flow == other.logged_server_flow
        &&& self.logged_client_presence == other.logged_client_presence
        &&& self.logged_server_presence == other.logged_server_presence
        &&& self.inserted_helper_friend == other.inserted_helper_friend
        &&& self.sent_helper_roster == other.sent_helper_roster
        &&& self.sent_helper_presence == other.sent_helper_presence
        &&& self.refreshed_helper_presence_after_client_presence
            == other.refreshed_helper_presence_after_client_presence
        &&& self.sent_helper_intro == other.sent_helper_intro
        &&& self.logged_roster_without_helper == other.logged_roster_without_helper
        &&& self.startup_roster_ready == other.startup_roster_ready
        &&& self.startup_presence_replay == other.startup_presence_replay
        &&& self.helper_command_buffer == other.helper_command_buffer
        &&& self.server_presence_stats == other.server_presence_stats
        &&& self.roster_jid_domains == other.roster_jid_domains
        &&& self.roster_domains_logged == other.roster_domains_logged
        &&& self.logged_presence_domain_normalization == other.logged_presence_domain_normalization
        &&& self.incoming_text_buffer == other.incoming_text_buffer
        &&& self.outgoing_text_buffer == other.outgoing_text_buffer
        &&& self.was_helper_friend_enabled == other.was_helper_friend_enabled
    }

    /// Everything but the startup presence replay is as in `other`.
    pub open spec fn same_except_replay(&self, other: &ChatSession) -> bool {
        &&& self.helper_jid == other.helper_jid
        &&& self.valorant_version == other.valorant_version
        &&& self.logged_client_flow == other.logged_client_flow
        &&& self.logged_server_flow == other.logged_server_flow
        &&& self.logged_client_presence == other.logged_client_presence
        &&& self.logged_server_presence == other.logged_server_presence
        &&& self.inserted_helper_friend == other.inserted_helper_friend
        &&& self.sent_helper_roster == other.sent_helper_roster
        &&& self.sent_helper_presence == other.sent_helper_presence
        &&& self.refreshed_helper_presence_after_client_presence
            == other.refreshed_helper_presence_after_client_presence
        &&& self.sent_helper_intro == other.sent_helper_intro
        &&& self.logged_roster_without_helper == other.logged_roster_without_helper
        &&& self.startup_roster_ready == other.startup_roster_ready
        &&& self.helper_command_buffer == other.helper_command_buffer
        &&& self.presence_buffer == other.presence_buffer
        &&& self.server_presence_stats == other.server_presence_stats
        &&& self.roster_jid_domains == other.roster_jid_domains
        &&& self.roster_domains_logged == other.roster_domains_logged
        &&& self.logged_presence_domain_normalization == other.logged_presence_domain_normalization
        &&& self.incoming_text_buffer == other.incoming_text_buffer
        &&& self.outgoing_text_buffer == other.outgoing_text_buffer
        &&& self.was_helper_friend_enabled == other.was_helper_friend_enabled
    }

    /// What holds of a session throughout.
    pub open spec fn wf(&self) -> bool {
        &&& self.startup_presence_replay.wf()
        &&& self.helper_command_buffer.helper_jid@ == self.helper_jid@
        &&& (self.sent_helper_intro ==> self.sent_helper_presence)
        &&& (self.sent_helper_presence ==> self.inserted_helper_friend)
        &&& (self.inserted_helper_friend <==> self.sent_helper_roster)
    }

    /// A new connection to the given chat server.
    pub fn new(server: &PatchedChatServer, helper_friend_enabled: bool) -> (r: Self)
        ensures
            r.wf(),
            r.helper_jid@ == crate::presence::helper_jid_spec(
                server.host@,
                crate::presence::opt_chars(server.affinity),
            ),
            !r.inserted_helper_friend && !r.sent_helper_roster && !r.sent_helper_presence,
            !r.startup_roster_ready,
            r.was_helper_friend_enabled == helper_friend_enabled,
            r.valorant_version is None,
    {
        let affinity = match &server.affinity {
            Some(a) => Some(a.as_str()),
            None => None,
        };
        let helper_jid = helper_jid_for_chat_identity(server.host.as_str(), affinity);
        ChatSession {
            helper_command_buffer: HelperCommandBuffer::new(helper_jid.clone()),
            helper_jid,
            valorant_version: None,
            logged_client_flow: false,
            logged_server_flow: false,
            logged_client_presence: false,
            logged_server_presence: false,
            inserted_helper_friend: false,
            sent_helper_roster: false,
            sent_helper_presence: false,
            refreshed_helper_presence_after_client_presence: false,
            sent_helper_intro: false,
            logged_roster_without_helper: false,
            startup_roster_ready: false,
            startup_presence_replay: StartupPresenceReplay::new(),
            presence_buffer: ClientPresenceBuffer::new(),
            server_presence_stats: PresenceStats::new(),
            roster_jid_domains: DomainMap::new(),
            roster_domains_logged: false,
            logged_presence_domain_normalization: false,
            incoming_text_buffer: Utf8StreamBuffer::new(),
            outgoing_text_buffer: Utf8StreamBuffer::new(),
            was_helper_friend_enabled: helper_friend_enabled,
        }
    }

    /// Before each round of reads: a helper command half read when the
    /// helper friend was switched off is dropped.
    pub fn begin_round(&mut self, helper_friend_enabled: bool)
        requires
            old(self).wf(),
        ensures
            final(self).wf(),
            final(self).was_helper_friend_enabled == helper_friend_enabled,
            !helper_friend_enabled && old(self).was_helper_friend_enabled ==> final(self).helper_command_buffer.pending@.len() == 0,
            !(!helper_friend_enabled && old(self).was_helper_friend_enabled) ==> final(self).helper_command_buffer.pending@ == old(self).helper_command_buffer.pending@,
            final(self).incoming_text_buffer == old(self).incoming_text_buffer,
            final(self).presence_buffer == old(self).presence_buffer,
    {
        if !helper_friend_enabled && self.was_helper_friend_enabled {
            self.helper_command_buffer.clear();
        }
        self.was_helper_friend_enabled = helper_friend_enabled;
    }

    /// Client text on its way to the server: in safe mode it goes as it
    /// came, after anything the presence buffer held; otherwise through the
    /// presence buffer (see `presence_step`).
    pub fn forward_client_chat(
        &mut self,
        actions: &mut Vec<Action>,
        content: &str,
        bytes: &[u8],
        live: &Live,
    ) -> (r: Result<(), XmlWriteError>)
        requires
            old(self).wf(),
        ensures
            keeps(old(actions)@, final(actions)@),
            final(self).wf(),
            final(self).frame(old(self)),
            to_client(final(actions)@) == to_client(old(actions)@),
            live.safe_mode ==> {
                &&& r is Ok
                &&& to_server(final(actions)@) == to_server(old(actions)@) + encode_utf8(
                    old(self).presence_buffer@.pending,
                ) + bytes@
                &&& final(self).presence_buffer@ == flushed(old(self).presence_buffer@)
            },
            !live.safe_mode ==> {
                let step = presence_step(
                    old(self).presence_buffer@,
                    content@,
                    live.settings.enabled,
                    live.settings.status,
                    live.connect_to_muc,
                    crate::presence::opt_chars(old(self).valorant_version),
                );
                &&& final(self).presence_buffer@ == step.0
                &&& crate::presence::opt_chars(final(self).valorant_version) == step.2
                &&& match step.1 {
                    Ok(out) => r is Ok && to_server(final(actions)@) == to_server(old(actions)@) + out,
                    Err(e) => r == Err::<(), XmlWriteError>(e),
                }
            },
    {
        if live.safe_mode {
            let pending = self.presence_buffer.flush();
            send_server(actions, "ghosty -> riot", pending);
            let mut raw: Vec<u8> = Vec::new();
            let mut i: usize = 0;
            while i < bytes.len()
                invariant
                    i <= bytes@.len(),
                    raw@ == bytes@.take(i as int),
                decreases bytes@.len() - i,
            {
                raw.push(bytes[i]);
                assert(bytes@.take(i + 1) =~= bytes@.take(i as int).push(bytes@[i as int]));
                i += 1;
            }
            assert(bytes@.take(bytes@.len() as int) =~= bytes@);
            send_server(actions, "ghosty -> riot", raw);
            return Ok(());
        }
        let out = self.presence_buffer.push(
            content,
            live.settings.enabled,
            live.settings.status,
            live.connect_to_muc,
            &mut self.valorant_version,
        );
        match out {
            Ok(b) => {
                send_server(actions, "ghosty -> riot", b);
                Ok(())
            },
            Err(e) => Err(e),
        }
    }

    /// The client closed its side: what the text buffer and the presence
    /// buffer still hold goes to the server.
    pub fn on_client_closed(&mut self) -> (r: Vec<Action>)
        requires
            old(self).wf(),
        ensures
            final(self).wf(),
            to_server(r@) == old(self).incoming_text_buffer.pending@ + encode_utf8(
                old(self).presence_buffer@.pending,
            ),
            to_client(r@) == Seq::<u8>::empty(),
            final(self).incoming_text_buffer.pending@.len() == 0,
            final(self).presence_buffer@ == flushed(old(self).presence_buffer@),
            old(self).presence_buffer@.pending.len() == 0 ==> to_server(r@) == old(self).incoming_text_buffer.pending@,
    {
        let mut actions: Vec<Action> = Vec::new();
        let pending = self.incoming_text_buffer.flush();
        send_server(&mut actions, "ghosty -> riot", pending);
        let buffered = self.presence_buffer.flush();
        send_server(&mut actions, "ghosty -> riot", buffered);
        actions
    }

    /// The server closed its side: what the text buffer still holds goes to
    /// the client.
    pub fn on_server_closed(&mut self) -> (r: Vec<Action>)
        requires
            old(self).wf(),
        ensures
            final(self).wf(),
            to_client(r@) == old(self).outgoing_text_buffer.pending@,
            to_server(r@) == Seq::<u8>::empty(),
            final(self).outgoing_text_buffer.pending@.len() == 0,
    {
        let mut actions: Vec<Action> = Vec::new();
        let pending = self.outgoing_text_buffer.flush();
        send_client(&mut actions, "ghosty -> client", pending);
        actions
    }

    /// A message to the helper is complete: its change is applied first (and
    /// handed on as an action), what came with it goes on to the server as
    /// any client text does (with the settings as changed), then the reply
    /// goes to the client (a text as a helper message, a lookup as an action).
    fn complete_helper_command(
        &mut self,
        actions: &mut Vec<Action>,
        reply: Option<HelperReply>,
        change: Option<SettingsChange>,
        passthrough: Vec<u8>,
        live: &Live,
    ) -> (r: Result<(), XmlWriteError>)
        requires
            old(self).wf(),
        ensures
            final(self).wf(),
            final(self).frame(old(self)),
            keeps(old(actions)@, final(actions)@),
            r is Ok ==> match change {
                Some(c) => final(actions)@.len() > old(actions)@.len() && final(actions)@[old(actions)@.len() as int]
                    == Action::Change(c),
                None => true,
            },
            r is Ok ==> match reply {
                Some(HelperReply::Lookup(l)) => final(actions)@.len() > old(actions)@.len() && final(actions)@.last()
                    == Action::Lookup(l),
                Some(HelperReply::Text(t)) => exists|stamp: Seq<char>| #[trigger] to_client(final(actions)@)
                    == to_client(old(actions)@) + encode_utf8(
                    crate::presence::helper_chat_message_spec(old(self).helper_jid@, t@, stamp),
                ),
                None => to_client(final(actions)@) == to_client(old(actions)@),
            },
            passthrough@.len() == 0 ==> r is Ok && to_server(final(actions)@) == to_server(old(actions)@)
                && final(self).presence_buffer@ == old(self).presence_buffer@,
            passthrough@.len() > 0 && (live.safe_mode || !valid_utf8(passthrough@)) ==> r is Ok && to_server(
                final(actions)@,
            ) == to_server(old(actions)@) + encode_utf8(old(self).presence_buffer@.pending) + passthrough@
                && final(self).presence_buffer@ == flushed(old(self).presence_buffer@),
            passthrough@.len() > 0 && !live.safe_mode && valid_utf8(passthrough@) ==> {
                let step = presence_step(
                    old(self).presence_buffer@,
                    decode_utf8(passthrough@),
                    enabled_after(live.settings.enabled, change),
                    status_after(live.settings.status, change),
                    live.connect_to_muc,
                    crate::presence::opt_chars(old(self).valorant_version),
                );
                &&& final(self).presence_buffer@ == step.0
                &&& match step.1 {
                    Ok(out) => r is Ok && to_server(final(actions)@) == to_server(old(actions)@) + out,
                    Err(e) => r == Err::<(), XmlWriteError>(e),
                }
            },
    {
        let mut settings = HelperSettings {
            enabled: live.settings.enabled,
            status: live.settings.status,
            auto_accept: live.settings.auto_accept,
            auto_accept_state: live.settings.auto_accept_state.clone(),
        };
        if let Some(c) = change {
            settings.apply(c);
            push_action(actions, Action::Change(c));
        }
        let ghost after_change = actions@;
        if passthrough.len() > 0 {
            let after = Live {
                helper_friend: live.helper_friend,
                safe_mode: live.safe_mode,
                connect_to_muc: live.connect_to_muc,
                settings,
            };
            match utf8_str(passthrough.as_slice()) {
                Some(text) => {
                    match self.forward_client_chat(actions, text, passthrough.as_slice(), &after) {
                        Ok(()) => {},
                        Err(e) => return Err(e),
                    }
                },
                None => self.forward_raw(actions, passthrough),
            }
        }
        match reply {
            Some(HelperReply::Text(t)) => {
                let message = helper_chat_message(self.helper_jid.as_str(), t.as_str());
                send_client(actions, "ghosty -> client helper message", crate::text::string_bytes(message.as_str()));
            },
            Some(HelperReply::Lookup(l)) => push_action(actions, Action::Lookup(l)),
            None => {},
        }
        Ok(())
    }

    /// Client bytes that go on as they are, after anything the presence
    /// buffer held.
    fn forward_raw(&mut self, actions: &mut Vec<Action>, bytes: Vec<u8>)
        requires
            old(self).wf(),
        ensures
            keeps(old(actions)@, final(actions)@),
            final(self).wf(),
            to_server(final(actions)@) == to_server(old(actions)@) + encode_utf8(old(self).presence_buffer@.pending)
                + bytes@,
            to_client(final(actions)@) == to_client(old(actions)@),
            final(self).presence_buffer@ == flushed(old(self).presence_buffer@),
            final(self).valorant_version == old(self).valorant_version,
            final(self).frame(old(self)),
    {
        let pending = self.presence_buffer.flush();
        send_server(actions, "ghosty -> riot", pending);
        send_server(actions, "ghosty -> riot", bytes);
    }

    /// A read from the client. Its text goes through the helper command
    /// buffer where the helper friend is on (a command's change and reply
    /// become actions, what is not for the helper goes on), else through the
    /// presence buffer, or as it is in safe mode; bytes that are not text go
    /// as they are. Afterwards the helper's presence is sent again once after
    /// the client's first presence, and whenever the VALORANT version it
    /// reports changes.
    #[verifier::rlimit(100)]
    #[verifier::spinoff_prover]
    pub fn on_client_data(&mut self, bytes: Vec<u8>, live: &Live) -> (r: Result<Vec<Action>, XmlWriteError>)
        requires
            old(self).wf(),
        ensures
            final(self).wf(),
            match client_data_error(*old(self), bytes@, *live) {
                Some(e) => r == Err::<Vec<Action>, XmlWriteError>(e),
                None => r is Ok,
            },
            live.safe_mode && !live.helper_friend && old(self).presence_buffer@.pending.len() == 0 ==> {
                &&& r is Ok
                &&& safe_client_step(
                    old(self).incoming_text_buffer.pending@,
                    bytes@,
                    final(self).incoming_text_buffer.pending@,
                    to_server(r->Ok_0@),
                )
                &&& final(self).presence_buffer@.pending.len() == 0
            },
            final(self).logged_client_flow,
            final(self).incoming_text_buffer.pending@ == utf8_push_spec(
                old(self).incoming_text_buffer.pending@,
                bytes@,
            ).1,
            final(self).inserted_helper_friend == old(self).inserted_helper_friend,
            final(self).sent_helper_roster == old(self).sent_helper_roster,
            final(self).sent_helper_presence == old(self).sent_helper_presence,
            final(self).startup_roster_ready == old(self).startup_roster_ready,
            old(self).refreshed_helper_presence_after_client_presence
                ==> final(self).refreshed_helper_presence_after_client_presence,
            old(self).logged_client_presence ==> final(self).logged_client_presence,
            r is Ok ==> match utf8_push_spec(old(self).incoming_text_buffer.pending@, bytes@).0 {
                ChunkView::Pending => to_server(r->Ok_0@) == Seq::<u8>::empty()
                    && final(self).presence_buffer@ == old(self).presence_buffer@,
                ChunkView::Binary(b) => to_server(r->Ok_0@) == encode_utf8(old(self).presence_buffer@.pending) + b
                    && final(self).presence_buffer@ == flushed(old(self).presence_buffer@),
                ChunkView::Text(content, b) => (live.safe_mode && !live.helper_friend) ==> to_server(r->Ok_0@)
                    == encode_utf8(old(self).presence_buffer@.pending) + b && final(self).presence_buffer@
                    == flushed(old(self).presence_buffer@),
            },
            r is Ok && live.helper_friend ==> match utf8_push_spec(old(self).incoming_text_buffer.pending@, bytes@).0 {
                ChunkView::Text(content, b) => {
                    let hb = helper_buffer_step(
                        old(self).helper_command_buffer.pending@,
                        content,
                        old(self).helper_jid@,
                        live.settings,
                    );
                    let step = presence_step(
                        old(self).presence_buffer@,
                        content,
                        live.settings.enabled,
                        live.settings.status,
                        live.connect_to_muc,
                        crate::presence::opt_chars(old(self).valorant_version),
                    );
                    &&& final(self).helper_command_buffer.pending@ == hb.0
                    &&& hb.1 is Pending ==> to_server(r->Ok_0@) == Seq::<u8>::empty() && final(self).presence_buffer@
                        == old(self).presence_buffer@
                    &&& hb.1 is NotHelper && live.safe_mode ==> to_server(r->Ok_0@) == encode_utf8(
                        old(self).presence_buffer@.pending,
                    ) + b && final(self).presence_buffer@ == flushed(old(self).presence_buffer@)
                    &&& hb.1 is NotHelper && !live.safe_mode ==> final(self).presence_buffer@ == step.0 && (step.1 matches Ok(
                        out,
                    ) && to_server(r->Ok_0@) == out)
                },
                _ => true,
            },
            r is Ok && live.helper_friend ==> match helper_plan_of(
                utf8_push_spec(old(self).incoming_text_buffer.pending@, bytes@).0,
                old(self).helper_command_buffer.pending@,
                old(self).helper_jid@,
                live.settings,
            ) {
                Some(pl) => {
                    &&& (pl.1 matches Some(c) ==> r->Ok_0@.contains(Action::Change(c)))
                    &&& (pl.0 matches ReplyView::Lookup(l) ==> r->Ok_0@.contains(Action::Lookup(l)))
                },
                None => true,
            },
            r is Ok && live.helper_friend ==> match utf8_push_spec(old(self).incoming_text_buffer.pending@, bytes@).0 {
                ChunkView::Text(content, _) => match helper_buffer_step(
                    old(self).helper_command_buffer.pending@,
                    content,
                    old(self).helper_jid@,
                    live.settings,
                ).1 {
                    ResultView::Complete { plan, passthrough } => {
                        let change = match plan {
                            Some(pl) => pl.1,
                            None => None,
                        };
                        let step = presence_step(
                            old(self).presence_buffer@,
                            decode_utf8(passthrough),
                            enabled_after(live.settings.enabled, change),
                            status_after(live.settings.status, change),
                            live.connect_to_muc,
                            crate::presence::opt_chars(old(self).valorant_version),
                        );
                        &&& passthrough.len() == 0 ==> to_server(r->Ok_0@) == Seq::<u8>::empty()
                        &&& passthrough.len() > 0 && (live.safe_mode || !valid_utf8(passthrough)) ==> to_server(
                            r->Ok_0@,
                        ) == encode_utf8(old(self).presence_buffer@.pending) + passthrough
                        &&& passthrough.len() > 0 && !live.safe_mode && valid_utf8(passthrough) ==> (step.1 matches Ok(
                            out,
                        ) && to_server(r->Ok_0@) == out)
                        &&& (plan matches Some(pl) ==> (pl.0 matches ReplyView::Text(t) ==> starts_with_helper_message(
                            to_client(r->Ok_0@),
                            old(self).helper_jid@,
                            t,
                        )))
                    },
                    _ => true,
                },
                _ => true,
            },
            r is Ok && !live.helper_friend ==> {
                &&& final(self).helper_command_buffer.pending@ == old(self).helper_command_buffer.pending@
                &&& !live.safe_mode ==> match utf8_push_spec(old(self).incoming_text_buffer.pending@, bytes@).0 {
                    ChunkView::Text(content, _) => {
                        let step = presence_step(
                            old(self).presence_buffer@,
                            content,
                            live.settings.enabled,
                            live.settings.status,
                            live.connect_to_muc,
                            crate::presence::opt_chars(old(self).valorant_version),
                        );
                        &&& final(self).presence_buffer@ == step.0
                        &&& step.1 matches Ok(out) && to_server(r->Ok_0@) == out
                    },
                    _ => true,
                }
            },
    {
        let ghost mut reply_text: Option<Seq<char>> = None;
        let ghost mut server_after: Seq<u8> = Seq::empty();
        let ghost mut client_start: Seq<u8> = Seq::empty();
        let ghost mut seen: Option<ResultView> = None;
        let ghost mut change_val: Option<SettingsChange> = None;
        let ghost mut change_at: int = -1;
        let ghost mut lookup_val: Option<LcuLookup> = None;
        let ghost mut lookup_at: int = -1;
        let mut actions: Vec<Action> = Vec::new();
        if !self.logged_client_flow {
            self.logged_client_flow = true;
            log_info(&mut actions, owned("Client-to-server chat bytes are flowing"));
        }
        let previous_version = match &self.valorant_version {
            Some(v) => Some(v.clone()),
            None => None,
        };
        let mut saw_client_presence = false;
        let chunk = self.incoming_text_buffer.push(bytes);
        let ghost before_chunk = to_server(actions@);
        match chunk {
            Utf8Chunk::Text { content, bytes } => {
                if live.helper_friend {
                    saw_client_presence = str_contains(content.as_str(), "<presence");
                    let result = self.helper_command_buffer.push(content.as_str(), &live.settings);
                    proof {
                        seen = Some(result_view(result));
                    }
                    match result {
                        HelperCommandResult::NotHelper => {
                            match self.forward_client_chat(&mut actions, content.as_str(), bytes.as_slice(), live) {
                                Ok(()) => {},
                                Err(e) => return Err(e),
                            }
                        },
                        HelperCommandResult::Pending => {},
                        HelperCommandResult::Complete { plan, passthrough } => {
                            let (reply, change) = match plan {
                                Some(p) => (Some(p.reply), p.change),
                                None => (None, None),
                            };
                            let ghost before = actions@;
                            let ghost reply_seen = reply;
                            let ghost jid_before = self.helper_jid@;
                            assert(to_server(before) == Seq::<u8>::empty());
                            assert(to_client(before) == Seq::<u8>::empty());
                            match self.complete_helper_command(&mut actions, reply, change, passthrough, live) {
                                Ok(()) => {},
                                Err(e) => return Err(e),
                            }
                            proof {
                                if let Some(HelperReply::Text(t)) = reply_seen {
                                    let stamp = choose|stamp: Seq<char>| #[trigger] to_client(actions@) == to_client(before)
                                        + encode_utf8(crate::presence::helper_chat_message_spec(jid_before, t@, stamp));
                                    let m = encode_utf8(crate::presence::helper_chat_message_spec(jid_before, t@, stamp));
                                    assert(to_client(before) + m =~= m);
                                    assert(m.is_prefix_of(to_client(actions@))) by {
                                        assert(to_client(actions@).subrange(0, m.len() as int) =~= m);
                                    }
                                    reply_text = Some(t@);
                                }
                                client_start = to_client(actions@);
                                server_after = to_server(actions@);
                                assert(client_start.is_prefix_of(to_client(actions@))) by {
                                    assert(client_start.subrange(0, client_start.len() as int) =~= client_start);
                                }
                                if let Some(c) = change {
                                    change_val = Some(c);
                                    change_at = before.len() as int;
                                }
                                if let Some(HelperReply::Lookup(l)) = reply_seen {
                                    lookup_val = Some(l);
                                    lookup_at = actions@.len() - 1;
                                }
                            }
                        },
                    }
                } else if !live.safe_mode {
                    saw_client_presence = str_contains(content.as_str(), "<presence");
                    match self.forward_client_chat(&mut actions, content.as_str(), bytes.as_slice(), live) {
                        Ok(()) => {},
                        Err(e) => return Err(e),
                    }
                } else {
                    self.forward_raw(&mut actions, bytes);
                }
            },
            Utf8Chunk::Binary(bytes) => {
                self.forward_raw(&mut actions, bytes);
            },
            Utf8Chunk::Pending => {},
        }
        if live.helper_friend && self.inserted_helper_friend && self.sent_helper_presence && saw_client_presence
            && !self.refreshed_helper_presence_after_client_presence {
            self.refreshed_helper_presence_after_client_presence = true;
            let version = match &self.valorant_version {
                Some(v) => Some(v.as_str()),
                None => None,
            };
            let p = helper_presence(self.helper_jid.as_str(), version);
            let pbytes = crate::text::string_bytes(p.as_str());
            proof {
                lemma_prefix_grows(client_start, to_client(actions@), pbytes@);
            }
            send_client(&mut actions, "ghosty -> client helper presence refresh", pbytes);
            log_info(&mut actions, owned("Refreshed Ghosty helper friend presence after client presence"));
        }
        let version_changed = match (&self.valorant_version, &previous_version) {
            (Some(now), Some(before)) => !crate::text::str_eq(now.as_str(), before.as_str()),
            (Some(_), None) => true,
            _ => false,
        };
        if live.helper_friend && self.inserted_helper_friend && self.sent_helper_presence && version_changed {
            let version = match &self.valorant_version {
                Some(v) => Some(v.as_str()),
                None => None,
            };
            let p = helper_presence(self.helper_jid.as_str(), version);
            let pbytes = crate::text::string_bytes(p.as_str());
            proof {
                lemma_prefix_grows(client_start, to_client(actions@), pbytes@);
            }
            send_client(&mut actions, "ghosty -> client helper presence update", pbytes);
            log_info(&mut actions, owned("Updated Ghosty helper friend presence"));
        }
        if saw_client_presence && !self.logged_client_presence {
            self.logged_client_presence = true;
            log_info(&mut actions, owned("Client-to-server presence stanzas are flowing"));
        }
        proof {
            let hp = helper_plan_of(
                utf8_push_spec(old(self).incoming_text_buffer.pending@, bytes@).0,
                old(self).helper_command_buffer.pending@,
                old(self).helper_jid@,
                live.settings,
            );
            lemma_reply_kept(reply_text, client_start, to_client(actions@), old(self).helper_jid@);
            if live.helper_friend {
                if let Some(pl) = hp {
                    assert(seen == Some(ResultView::Complete { plan: Some(pl), passthrough: seen->0->passthrough }));
                    if let Some(c) = pl.1 {
                        assert(actions@[change_at] == Action::Change(c));
                    }
                    if let ReplyView::Lookup(l) = pl.0 {
                        assert(actions@[lookup_at] == Action::Lookup(l));
                    }
                }
            }
        }
        Ok(actions)
    }

    /// The text of a read from the server: counted, the masked presence sent
    /// once the client is warmed up, and the first roster noted.
    fn server_text(&mut self, actions: &mut Vec<Action>, text: &str, live: &Live)
        requires
            old(self).wf(),
        ensures
            final(self).wf(),
            final(self).incoming_text_buffer == old(self).incoming_text_buffer,
            final(self).outgoing_text_buffer == old(self).outgoing_text_buffer,
            final(self).helper_command_buffer == old(self).helper_command_buffer,
            final(self).startup_presence_replay == old(self).startup_presence_replay,
            final(self).inserted_helper_friend == old(self).inserted_helper_friend,
            final(self).sent_helper_roster == old(self).sent_helper_roster,
            final(self).sent_helper_presence == old(self).sent_helper_presence,
            final(self).sent_helper_intro == old(self).sent_helper_intro,
            final(self).logged_server_flow == old(self).logged_server_flow,
            old(self).startup_roster_ready ==> final(self).startup_roster_ready,
            final(self).presence_buffer@.pending == old(self).presence_buffer@.pending,
            to_client(final(actions)@) == to_client(old(actions)@),
            final(self).helper_jid == old(self).helper_jid,
            final(self).valorant_version == old(self).valorant_version,
            final(self).logged_client_flow == old(self).logged_client_flow,
            final(self).logged_client_presence == old(self).logged_client_presence,
            final(self).refreshed_helper_presence_after_client_presence
                == old(self).refreshed_helper_presence_after_client_presence,
            final(self).logged_presence_domain_normalization == old(self).logged_presence_domain_normalization,
            final(self).was_helper_friend_enabled == old(self).was_helper_friend_enabled,
            final(self).logged_server_presence == (old(self).logged_server_presence || contains(
                text@,
                "<presence"@,
            )),
            final(self).server_presence_stats.recorded_from(old(self).server_presence_stats, text@),
            final(self).presence_buffer@ == if final(self).server_presence_stats.warmed_up() {
                PresenceBufferView { warmup_masked_presence: None, ..old(self).presence_buffer@ }
            } else {
                old(self).presence_buffer@
            },
            to_server(final(actions)@) == to_server(old(actions)@) + match old(self).presence_buffer@.warmup_masked_presence {
                Some(m) => if final(self).server_presence_stats.warmed_up() {
                    m
                } else {
                    Seq::<u8>::empty()
                },
                None => Seq::<u8>::empty(),
            },
            ({
                let marker = contains(text@, ROSTER_NAMESPACE@);
                if live.helper_friend && !old(self).startup_roster_ready && marker {
                    &&& final(self).startup_roster_ready
                    &&& pair_views(final(self).roster_jid_domains.entries@) == jid_domain_map_spec(text@, "jid"@)
                    &&& final(self).roster_domains_logged
                    &&& final(self).logged_roster_without_helper == old(self).logged_roster_without_helper
                } else if !live.helper_friend && !old(self).logged_roster_without_helper && marker {
                    &&& final(self).startup_roster_ready
                    &&& final(self).logged_roster_without_helper
                    &&& final(self).roster_domains_logged == old(self).roster_domains_logged
                    &&& if old(self).roster_jid_domains.entries@.len() == 0 {
                        pair_views(final(self).roster_jid_domains.entries@) == jid_domain_map_spec(text@, "jid"@)
                    } else {
                        final(self).roster_jid_domains == old(self).roster_jid_domains
                    }
                } else {
                    &&& final(self).startup_roster_ready == old(self).startup_roster_ready
                    &&& final(self).logged_roster_without_helper == old(self).logged_roster_without_helper
                    &&& final(self).roster_domains_logged == old(self).roster_domains_logged
                    &&& final(self).roster_jid_domains == old(self).roster_jid_domains
                }
            }),
    {
        if str_contains(text, "<presence") && !self.logged_server_presence {
            self.logged_server_presence = true;
            log_info(actions, owned("Server-to-client presence stanzas are flowing"));
        }
        count_server_presence(&mut self.server_presence_stats, &mut self.presence_buffer, actions, text);
        if live.helper_friend && !self.startup_roster_ready && contains_roster_marker(text) {
            self.startup_roster_ready = true;
            let items = roster_item_count(text);
            self.roster_jid_domains = jid_domain_map(text, "jid");
            if !self.roster_domains_logged {
                self.roster_domains_logged = true;
                if let Some(summary) = jid_domain_summary(text, "jid", "Roster JID domains") {
                    log_info(actions, summary);
                }
            }
            let n = decimal_string(items as u64);
            log_info(
                actions,
                concat3(
                    "Forwarded initial Riot roster unchanged (",
                    n.as_str(),
                    " items in current chunk); Ghosty helper will be added after startup",
                ),
            );
        } else if !live.helper_friend && !self.logged_roster_without_helper && contains_roster_marker(text) {
            self.logged_roster_without_helper = true;
            self.startup_roster_ready = true;
            let items = roster_item_count(text);
            if self.roster_jid_domains.is_empty() {
                self.roster_jid_domains = jid_domain_map(text, "jid");
            }
            let n = decimal_string(items as u64);
            log_info(
                actions,
                concat3("Roster marker passed while helper friend was disabled (", n.as_str(), " items in current chunk)"),
            );
        }
    }

    /// Bytes from the server on their way to the client: JID domains made to
    /// match the roster's, and presence kept for the startup replay once the
    /// roster has passed.
    fn to_client_bytes(&mut self, actions: &mut Vec<Action>, bytes: Vec<u8>)
        requires
            old(self).wf(),
        ensures
            final(self).wf(),
            final(self).incoming_text_buffer == old(self).incoming_text_buffer,
            final(self).outgoing_text_buffer == old(self).outgoing_text_buffer,
            final(self).helper_command_buffer == old(self).helper_command_buffer,
            final(self).presence_buffer == old(self).presence_buffer,
            final(self).server_presence_stats == old(self).server_presence_stats,
            final(self).inserted_helper_friend == old(self).inserted_helper_friend,
            final(self).sent_helper_roster == old(self).sent_helper_roster,
            final(self).sent_helper_presence == old(self).sent_helper_presence,
            final(self).sent_helper_intro == old(self).sent_helper_intro,
            final(self).startup_roster_ready == old(self).startup_roster_ready,
            final(self).logged_server_flow == old(self).logged_server_flow,
            final(self).roster_jid_domains == old(self).roster_jid_domains,
            final(self).valorant_version == old(self).valorant_version,
            final(self).helper_jid == old(self).helper_jid,
            !old(self).startup_roster_ready ==> final(self).startup_presence_replay == old(self).startup_presence_replay,
            to_server(final(actions)@) == to_server(old(actions)@),
            bytes@.len() == 0 ==> to_client(final(actions)@) == to_client(old(actions)@),
            old(self).roster_jid_domains.entries@.len() == 0 ==> to_client(final(actions)@) == to_client(old(actions)@)
                + bytes@,
            bytes@.len() > 0 ==> to_client(final(actions)@) == to_client(old(actions)@) + client_bound(
                bytes@,
                pair_views(old(self).roster_jid_domains.entries@),
            ),
    {
        let mut out = bytes;
        if out.len() == 0 {
            return;
        }
        if !self.roster_jid_domains.is_empty() {
            let rewritten = match utf8_str(out.as_slice()) {
                Some(text) => match rewrite_jid_attribute_domains_from_map(text, "from", &self.roster_jid_domains) {
                    Some(rw) => {
                        if !self.logged_presence_domain_normalization {
                            self.logged_presence_domain_normalization = true;
                            let before = jid_domains(text, "from");
                            let after = jid_domains(rw.as_str(), "from");
                            let mut m = owned("Normalized server-to-client JID domains for roster matching: ");
                            push_str(&mut m, before.as_str());
                            push_str(&mut m, " -> ");
                            push_str(&mut m, after.as_str());
                            log_info(actions, m);
                        }
                        Some(rw)
                    },
                    None => None,
                },
                None => None,
            };
            if let Some(rw) = rewritten {
                out = crate::text::string_bytes(rw.as_str());
            }
        }
        if self.startup_roster_ready {
            if let Some(text) = utf8_str(out.as_slice()) {
                let added = self.startup_presence_replay.push(text);
                if added > 0 && self.startup_presence_replay.stanza_count() == added {
                    log_info(actions, owned("Capturing initial server presence for startup replay"));
                }
            }
        }
        send_client(actions, "ghosty -> client", out);
    }

    /// After a server read: the helper friend is added once the startup
    /// replay was sent, then its presence and its status message.
    fn helper_after_server(&mut self, actions: &mut Vec<Action>, live: &Live)
        requires
            old(self).wf(),
        ensures
            final(self).wf(),
            final(self).incoming_text_buffer == old(self).incoming_text_buffer,
            final(self).outgoing_text_buffer == old(self).outgoing_text_buffer,
            final(self).helper_command_buffer == old(self).helper_command_buffer,
            final(self).presence_buffer == old(self).presence_buffer,
            final(self).startup_presence_replay == old(self).startup_presence_replay,
            final(self).server_presence_stats == old(self).server_presence_stats,
            final(self).startup_roster_ready == old(self).startup_roster_ready,
            final(self).logged_server_flow == old(self).logged_server_flow,
            final(self).roster_jid_domains == old(self).roster_jid_domains,
            to_server(final(actions)@) == to_server(old(actions)@),
            old(self).sent_helper_roster ==> final(self).sent_helper_roster,
            old(self).sent_helper_presence ==> final(self).sent_helper_presence,
            !live.helper_friend ==> final(self).sent_helper_roster == old(self).sent_helper_roster
                && final(self).sent_helper_presence == old(self).sent_helper_presence
                && final(self).inserted_helper_friend == old(self).inserted_helper_friend
                && final(self).sent_helper_intro == old(self).sent_helper_intro,
            live.helper_friend && old(self).startup_presence_replay.replayed ==> final(self).sent_helper_roster
                && final(self).sent_helper_presence && final(self).sent_helper_intro,
            !live.helper_friend ==> to_client(final(actions)@) == to_client(old(actions)@),
            to_client(old(actions)@).is_prefix_of(to_client(final(actions)@)),
            final(self).helper_jid == old(self).helper_jid,
            final(self).valorant_version == old(self).valorant_version,
            ({
                let (o, rp) = (*old(self), old(self).startup_presence_replay.replayed);
                &&& final(self).sent_helper_roster == (o.sent_helper_roster || adds_helper_roster(o, rp, *live))
                &&& final(self).inserted_helper_friend == (o.inserted_helper_friend || adds_helper_roster(o, rp, *live))
                &&& final(self).sent_helper_presence == (o.sent_helper_presence || sends_helper_presence(o, rp, *live))
                &&& final(self).sent_helper_intro == (o.sent_helper_intro || sends_helper_intro(o, rp, *live))
            }),
            exists|roster_time: int, presence_time: int, stamp: Seq<char>|
                to_client(final(actions)@) == to_client(old(actions)@) + #[trigger] helper_friend_bytes(
                    *old(self),
                    old(self).startup_presence_replay.replayed,
                    *live,
                    roster_time,
                    presence_time,
                    stamp,
                ),
    {
        let ghost start = to_client(actions@);
        let ghost mut roster_time: int = 0;
        let ghost mut presence_time: int = 0;
        let ghost mut stamp: Seq<char> = Seq::empty();
        let ghost o = *self;
        let ghost rp = self.startup_presence_replay.replayed;
        let ghost jid = self.helper_jid@;
        let ghost mut roster_part: Seq<u8> = Seq::empty();
        let ghost mut presence_part: Seq<u8> = Seq::empty();
        let ghost mut intro_part: Seq<u8> = Seq::empty();
        assert(start.is_prefix_of(start)) by {
            assert(start.subrange(0, start.len() as int) =~= start);
        }
        if live.helper_friend && self.startup_presence_replay.replayed() && !self.sent_helper_roster {
            self.sent_helper_roster = true;
            self.inserted_helper_friend = true;
            let push = helper_roster_push(self.helper_jid.as_str());
            let ghost before = to_client(actions@);
            let rb = crate::text::string_bytes(push.as_str());
            proof {
                lemma_prefix_grows(start, before, rb@);
                roster_time = choose|t: int| push@ == crate::presence::helper_roster_push_spec(jid, t);
                roster_part = rb@;
            }
            send_client(actions, "ghosty -> client helper roster", rb);
            log_info(actions, owned("Added Ghosty helper friend after startup roster and presence"));
        }
        assert(to_client(actions@) == start + roster_part);
        if live.helper_friend && self.inserted_helper_friend && !self.sent_helper_presence {
            self.sent_helper_presence = true;
            let version = match &self.valorant_version {
                Some(v) => Some(v.as_str()),
                None => None,
            };
            assert(crate::presence::str_opt(version) == crate::presence::opt_chars(o.valorant_version));
            let p = helper_presence(self.helper_jid.as_str(), version);
            let ghost before = to_client(actions@);
            let pb = crate::text::string_bytes(p.as_str());
            proof {
                lemma_prefix_grows(start, before, pb@);
                presence_time = choose|t: int| p@ == crate::presence::helper_presence_spec(
                    jid,
                    crate::presence::opt_chars(o.valorant_version),
                    t,
                );
                presence_part = pb@;
            }
            send_client(actions, "ghosty -> client helper presence", pb);
            let intro = helper_intro_message(&live.settings);
            let m = helper_chat_message(self.helper_jid.as_str(), intro.as_str());
            let ghost before = to_client(actions@);
            let mb = crate::text::string_bytes(m.as_str());
            proof {
                lemma_prefix_grows(start, before, mb@);
                stamp = choose|st: Seq<char>| m@ == crate::presence::helper_chat_message_spec(jid, intro@, st);
                intro_part = mb@;
            }
            send_client(actions, "ghosty -> client helper message", mb);
            self.sent_helper_intro = true;
            log_info(actions, owned("Sent Ghosty helper status message"));
        } else if live.helper_friend && self.inserted_helper_friend && self.sent_helper_presence && !self.sent_helper_intro {
            let intro = helper_intro_message(&live.settings);
            let m = helper_chat_message(self.helper_jid.as_str(), intro.as_str());
            let ghost before = to_client(actions@);
            let mb = crate::text::string_bytes(m.as_str());
            proof {
                lemma_prefix_grows(start, before, mb@);
                stamp = choose|st: Seq<char>| m@ == crate::presence::helper_chat_message_spec(jid, intro@, st);
                intro_part = mb@;
            }
            send_client(actions, "ghosty -> client helper message", mb);
            self.sent_helper_intro = true;
            log_info(actions, owned("Sent Ghosty helper status message"));
        }
        proof {
            let hb = helper_friend_bytes(o, rp, *live, roster_time, presence_time, stamp);
            assert(roster_part + presence_part + intro_part == hb);
            assert(to_client(actions@) == start + (roster_part + presence_part + intro_part));
        }
    }

    /// A read from the server (see `server_text`, `to_client_bytes` and
    /// `helper_after_server`, in that order): its text is counted, the
    /// masked presence goes out once the client is warmed up, the first
    /// roster is noted, the read goes on to the client, and the helper
    /// friend is added once the startup replay was sent.
    pub fn on_server_data(&mut self, bytes: Vec<u8>, live: &Live) -> (r: Vec<Action>)
        requires
            old(self).wf(),
        ensures
            final(self).wf(),
            final(self).logged_server_flow,
            final(self).outgoing_text_buffer.pending@ == utf8_push_spec(
                old(self).outgoing_text_buffer.pending@,
                bytes@,
            ).1,
            final(self).incoming_text_buffer == old(self).incoming_text_buffer,
            final(self).helper_command_buffer == old(self).helper_command_buffer,
            old(self).sent_helper_roster ==> final(self).sent_helper_roster,
            old(self).sent_helper_presence ==> final(self).sent_helper_presence,
            old(self).startup_roster_ready ==> final(self).startup_roster_ready,
            !live.helper_friend ==> final(self).sent_helper_roster == old(self).sent_helper_roster
                && final(self).sent_helper_presence == old(self).sent_helper_presence
                && final(self).inserted_helper_friend == old(self).inserted_helper_friend,
            live.helper_friend && final(self).startup_presence_replay.replayed ==> final(self).sent_helper_roster
                && final(self).sent_helper_presence && final(self).sent_helper_intro,
            final(self).presence_buffer@.pending == old(self).presence_buffer@.pending,
            to_server(r@) == match old(self).presence_buffer@.warmup_masked_presence {
                Some(m) => if final(self).presence_buffer@.warmup_masked_presence is None {
                    m
                } else {
                    Seq::<u8>::empty()
                },
                None => Seq::<u8>::empty(),
            },
            !live.helper_friend ==> match utf8_push_spec(old(self).outgoing_text_buffer.pending@, bytes@).0 {
                ChunkView::Pending => to_client(r@) == Seq::<u8>::empty(),
                ChunkView::Binary(b) => to_client(r@) == client_bound(b, pair_views(final(self).roster_jid_domains.entries@)),
                ChunkView::Text(_, b) => to_client(r@) == client_bound(b, pair_views(final(self).roster_jid_domains.entries@)),
            },
            ({
                let (o, rp) = (*old(self), final(self).startup_presence_replay.replayed);
                &&& final(self).sent_helper_roster == (o.sent_helper_roster || adds_helper_roster(o, rp, *live))
                &&& final(self).inserted_helper_friend == (o.inserted_helper_friend || adds_helper_roster(o, rp, *live))
                &&& final(self).sent_helper_presence == (o.sent_helper_presence || sends_helper_presence(o, rp, *live))
                &&& final(self).sent_helper_intro == (o.sent_helper_intro || sends_helper_intro(o, rp, *live))
            }),
            exists|roster_time: int, presence_time: int, stamp: Seq<char>|
                to_client(r@) == passed_to_client(
                    utf8_push_spec(old(self).outgoing_text_buffer.pending@, bytes@).0,
                    pair_views(final(self).roster_jid_domains.entries@),
                ) + #[trigger] helper_friend_bytes(
                    *old(self),
                    final(self).startup_presence_replay.replayed,
                    *live,
                    roster_time,
                    presence_time,
                    stamp,
                ),
            live.helper_friend ==> match utf8_push_spec(old(self).outgoing_text_buffer.pending@, bytes@).0 {
                ChunkView::Pending => true,
                ChunkView::Binary(b) => b.len() > 0 ==> client_bound(b, pair_views(final(self).roster_jid_domains.entries@)).is_prefix_of(
                    to_client(r@),
                ),
                ChunkView::Text(_, b) => b.len() > 0 ==> client_bound(b, pair_views(final(self).roster_jid_domains.entries@)).is_prefix_of(
                    to_client(r@),
                ),
            },
    {
        let mut actions: Vec<Action> = Vec::new();
        let chunk = self.outgoing_text_buffer.push(bytes);
        let mut out: Vec<u8> = Vec::new();
        match chunk {
            Utf8Chunk::Text { content, bytes } => {
                self.server_text(&mut actions, content.as_str(), live);
                out = bytes;
            },
            Utf8Chunk::Binary(bytes) => {
                out = bytes;
            },
            Utf8Chunk::Pending => {},
        }
        self.to_client_bytes(&mut actions, out);
        let ghost mid = *self;
        let ghost mid_out = to_client(actions@);
        proof {
            assert(mid_out == passed_to_client(
                utf8_push_spec(old(self).outgoing_text_buffer.pending@, bytes@).0,
                pair_views(mid.roster_jid_domains.entries@),
            ));
        }
        self.helper_after_server(&mut actions, live);
        if !self.logged_server_flow {
            self.logged_server_flow = true;
            log_info(&mut actions, owned("Server-to-client chat bytes are flowing"));
        }
        proof {
            let rp = mid.startup_presence_replay.replayed;
            let (t1, t2, st) = choose|t1: int, t2: int, st: Seq<char>|
                to_client(actions@) == mid_out + #[trigger] helper_friend_bytes(mid, rp, *live, t1, t2, st);
            assert(helper_friend_bytes(mid, rp, *live, t1, t2, st) == helper_friend_bytes(
                *old(self),
                rp,
                *live,
                t1,
                t2,
                st,
            ));
        }
        actions
    }

    /// Nothing came from either side: the startup presence replay goes to
    /// the client once it is due.
    pub fn on_idle(&mut self) -> (r: Vec<Action>)
        requires
            old(self).wf(),
        ensures
            final(self).wf(),
            to_server(r@) == Seq::<u8>::empty(),
            to_client(r@) == Seq::<u8>::empty() || (to_client(r@) == old(self).startup_presence_replay.replay@
                && final(self).startup_presence_replay.replayed),
            to_client(r@).len() > 0 ==> final(self).startup_presence_replay.replayed_stanzas
                == old(self).startup_presence_replay.stanzas,
            old(self).startup_presence_replay.replayed ==> to_client(r@) == Seq::<u8>::empty(),
            exists|now: i64| (to_client(r@).len() > 0) == #[trigger] old(self).startup_presence_replay.ready_at(
                now as int,
            ),
            to_client(r@).len() == 0 ==> *final(self) == *old(self) && r@.len() == 0,
            to_client(r@).len() > 0 ==> {
                let rp = final(self).startup_presence_replay;
                let op = old(self).startup_presence_replay;
                &&& final(self).same_except_replay(old(self))
                &&& rp.replayed && rp.replay@.len() == 0 && rp.pending@.len() == 0
                &&& rp.replayed_stanzas == op.stanzas && rp.stanzas == op.stanzas
                &&& rp.first_seen == op.first_seen && rp.last_seen == op.last_seen
                &&& r@.len() == 2
                &&& r@[1] matches Action::Log(LogLevel::Info, m) && m@ == "Replayed "@ + decimal(op.stanzas as nat)
                    + " startup presence stanzas after initial roster"@
            },
    {
        let mut actions: Vec<Action> = Vec::new();
        if self.startup_presence_replay.is_ready() {
            let replay = self.startup_presence_replay.take();
            if replay.len() > 0 {
                send_client(&mut actions, "ghosty -> client startup presence replay", replay);
                let n = decimal_string(self.startup_presence_replay.replayed_count() as u64);
                let message = concat3(
                    "Replayed ",
                    n.as_str(),
                    " startup presence stanzas after initial roster",
                );
                log_info(&mut actions, message);
                assert(actions@[1] == actions@.last());
            }
        }
        proof {
            assert(to_client(Seq::<Action>::empty()) == Seq::<u8>::empty());
        }
        actions
    }
}

} // verus!
