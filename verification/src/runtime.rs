//! The runtime status and how each part of the runtime changes it: switching
//! roles, control permission, peers joining and leaving, playback and lyrics
//! updates, task failures; and where the desktop lyrics window may stand.

use vstd::prelude::*;
use vstd::string::*;
use crate::models::{
    is_blank_snapshot, issue_view, text_view, waiting_for_session_text, AppRole, ConnectionIssue,
    ConnectionIssueKind, ConnectionState, HostInfo, IssueView, LyricsDocument, PeerInfo,
    PlaybackSnapshot, RuntimeStatus,
};
use crate::network::client::{endpoint_text, host_endpoint, host_result_view, manual_host, parse_manual_host};
use crate::network::protocol::{ClientMessage, ServerMessage};
use crate::network::WS_PORT;
use crate::player::{control_unsupported_text, PlayerService};
use crate::text::{concat2, decimal_string, same_text, string_of, decimal_chars, chars_of, append_chars};

verus! {

pub open spec fn default_server_name() -> Seq<char> {
    "Windows 播放电脑"@
}

/// `address:17636` for the address the host is reached at.
pub open spec fn sync_address(address: Seq<char>) -> Seq<char> {
    address + ":"@ + decimal_string(WS_PORT as nat)
}

fn sync_address_of(address: &str) -> (r: String)
    ensures
        r@ == sync_address(address@),
{
    let mut out = chars_of(address);
    let colon = chars_of(":");
    append_chars(&mut out, &colon);
    append_chars(&mut out, &decimal_chars(WS_PORT as u64));
    string_of(&out)
}

impl RuntimeStatus {
    /// The status a runtime starts with, given the computer's name and local
    /// address when they could be read: a host that is idle, lets clients
    /// control the player, and has seen no media session yet.
    pub fn initial(host_name: Option<String>, local_address: Option<String>) -> (r: Self)
        ensures
            r.role == AppRole::Host,
            r.connection == ConnectionState::Idle,
            r.connection_error is None,
            r.preferred_server_address is None,
            r.server_name@ == match host_name {
                Some(n) => n@,
                None => default_server_name(),
            },
            text_view(r.server_address) == match local_address {
                Some(a) => Some(sync_address(a@)),
                None => None,
            },
            r.allow_control,
            r.peers@.len() == 0,
            r.hosts@.len() == 0,
            is_blank_snapshot(r.playback),
            r.playback.error matches Some(e) && e@ == waiting_for_session_text(),
            r.lyrics is None,
    {
        let server_name = match host_name {
            Some(n) => n,
            None => String::from_str("Windows 播放电脑"),
        };
        let server_address = match local_address {
            Some(a) => Some(sync_address_of(a.as_str())),
            None => None,
        };
        RuntimeStatus {
            role: AppRole::Host,
            connection: ConnectionState::Idle,
            connection_error: None,
            preferred_server_address: None,
            server_name,
            server_address,
            allow_control: true,
            peers: Vec::new(),
            hosts: Vec::new(),
            playback: PlaybackSnapshot::default(),
            lyrics: None,
        }
    }
}

/// Every connected peer may control the player exactly when the host allows it.
pub open spec fn peers_follow_permission(s: RuntimeStatus) -> bool {
    forall|i: int| 0 <= i < s.peers@.len() ==> (#[trigger] s.peers@[i]).can_control == s.allow_control
}

/// Prepares the status for a (re)start in `role`: the host starts connecting,
/// the client starts discovering (or, with a manual host, lists just that
/// host); the last error and the peers are cleared and the server address is
/// the manual host's endpoint, if any.
pub fn reset_for_role(status: &mut RuntimeStatus, role: AppRole, preferred_host: Option<HostInfo>)
    ensures
        final(status).role == role,
        final(status).connection == match role {
            AppRole::Host => ConnectionState::Connecting,
            AppRole::Client => ConnectionState::Discovering,
        },
        final(status).connection_error is None,
        text_view(final(status).preferred_server_address) == match preferred_host {
            Some(h) => Some(endpoint_text(h.address@, h.port)),
            None => None,
        },
        text_view(final(status).server_address) == text_view(
            final(status).preferred_server_address,
        ),
        final(status).peers@.len() == 0,
        peers_follow_permission(*final(status)),
        final(status).hosts@ == match (role, preferred_host) {
            (AppRole::Client, Some(h)) => seq![h],
            _ => Seq::<HostInfo>::empty(),
        },
        final(status).server_name == old(status).server_name,
        final(status).allow_control == old(status).allow_control,
        final(status).playback == old(status).playback,
        final(status).lyrics == old(status).lyrics,
{
    status.role = role;
    status.connection = match role {
        AppRole::Host => ConnectionState::Connecting,
        AppRole::Client => ConnectionState::Discovering,
    };
    status.connection_error = None;
    match &preferred_host {
        Some(h) => {
            status.preferred_server_address = Some(host_endpoint(h));
            status.server_address = Some(host_endpoint(h));
        },
        None => {
            status.preferred_server_address = None;
            status.server_address = None;
        },
    }
    status.peers = Vec::new();
    let mut hosts = Vec::new();
    match role {
        AppRole::Client => match preferred_host {
            Some(h) => {
                hosts.push(h);
            },
            None => {},
        },
        AppRole::Host => {},
    }
    status.hosts = hosts;
}

/// Turns to the manual host typed as `input`. An address that cannot be read
/// leaves the status as it is and gives the reason; otherwise the status is
/// prepared for connecting to that host as a client, as `reset_for_role`
/// prepares it, and the host is returned.
pub fn prepare_manual_host(status: &mut RuntimeStatus, input: &str) -> (r: Result<HostInfo, String>)
    ensures
        host_result_view(r) == manual_host(input@),
        r is Err ==> *final(status) == *old(status),
        r matches Ok(h) ==> {
            &&& final(status).role == AppRole::Client
            &&& final(status).connection == ConnectionState::Discovering
            &&& final(status).connection_error is None
            &&& text_view(final(status).preferred_server_address) == Some(
                endpoint_text(h.address@, h.port),
            )
            &&& text_view(final(status).server_address) == text_view(
                final(status).preferred_server_address,
            )
            &&& final(status).peers@.len() == 0
            &&& final(status).hosts@.len() == 1
            &&& final(status).hosts@[0].deep_view() == h.deep_view()
            &&& final(status).server_name == old(status).server_name
            &&& final(status).allow_control == old(status).allow_control
            &&& final(status).playback == old(status).playback
            &&& final(status).lyrics == old(status).lyrics
        },
{
    match parse_manual_host(input) {
        Err(e) => Err(e),
        Ok(h) => {
            let listed = HostInfo {
                id: String::from_str(h.id.as_str()),
                name: String::from_str(h.name.as_str()),
                address: String::from_str(h.address.as_str()),
                port: h.port,
                latency_ms: h.latency_ms,
            };
            reset_for_role(status, AppRole::Client, Some(listed));
            Ok(h)
        },
    }
}

/// Grants or withdraws control: the setting and every connected peer follow.
pub fn apply_allow_control(status: &mut RuntimeStatus, allow: bool)
    ensures
        final(status).allow_control == allow,
        final(status).peers@.len() == old(status).peers@.len(),
        forall|i: int|
            0 <= i < final(status).peers@.len() ==> #[trigger] final(status).peers@[i] == (PeerInfo {
                can_control: allow,
                ..old(status).peers@[i]
            }),
        *final(status) == (RuntimeStatus {
            allow_control: allow,
            peers: final(status).peers,
            ..*old(status)
        }),
        peers_follow_permission(*final(status)),
{
    status.allow_control = allow;
    let mut peers: Vec<PeerInfo> = Vec::new();
    std::mem::swap(&mut peers, &mut status.peers);
    let ghost original = peers@;
    let mut updated: Vec<PeerInfo> = Vec::new();
    let mut rest = peers;
    let ghost mut k: int = 0;
    while rest.len() > 0
        invariant
            0 <= k <= original.len(),
            rest@ == original.skip(k),
            updated@.len() == k,
            forall|i: int|
                0 <= i < k ==> #[trigger] updated@[i] == (PeerInfo {
                    can_control: allow,
                    ..original[i]
                }),
        decreases rest.len(),
    {
        let mut peer = rest.remove(0);
        assert(peer == original[k]);
        peer.can_control = allow;
        updated.push(peer);
        proof {
            assert(rest@ =~= original.skip(k + 1));
            k = k + 1;
        }
    }
    assert(k == original.len());
    status.peers = updated;
}

/// Sets the status to offline with `issue`.
pub fn mark_offline(status: &mut RuntimeStatus, issue: ConnectionIssue)
    ensures
        *final(status) == (RuntimeStatus {
            connection: ConnectionState::Offline,
            connection_error: Some(issue),
            ..*old(status)
        }),
{
    status.connection = ConnectionState::Offline;
    status.connection_error = Some(issue);
}

pub open spec fn host_failure_view(detail: Seq<char>, endpoint: Option<Seq<char>>) -> IssueView {
    IssueView {
        kind: ConnectionIssueKind::Other,
        title: "主机服务启动失败"@,
        message: "同步端口或自动发现服务未能正常启动。"@,
        suggestion: "稍后重新切换到主机模式，并检查端口 17635 和 17636 是否被其它程序占用。"@,
        detail: Some(detail),
        endpoint,
    }
}

/// The host service stopped with an error.
pub fn host_failure_issue(detail: String, endpoint: Option<String>) -> (r: ConnectionIssue)
    ensures
        issue_view(r) == host_failure_view(detail@, text_view(endpoint)),
{
    ConnectionIssue::new(
        ConnectionIssueKind::Other,
        String::from_str("主机服务启动失败"),
        String::from_str("同步端口或自动发现服务未能正常启动。"),
        String::from_str("稍后重新切换到主机模式，并检查端口 17635 和 17636 是否被其它程序占用。"),
        Some(detail),
        endpoint,
    )
}

pub open spec fn client_failure_view(detail: Seq<char>, endpoint: Option<Seq<char>>) -> IssueView {
    IssueView {
        kind: ConnectionIssueKind::Other,
        title: "客户端连接任务已停止"@,
        message: "连接主机时发生了未处理的错误。"@,
        suggestion: "重新连接；如果问题持续出现，请记录错误详情。"@,
        detail: Some(detail),
        endpoint,
    }
}

/// The client connection task stopped with an error.
pub fn client_failure_issue(detail: String, endpoint: Option<String>) -> (r: ConnectionIssue)
    ensures
        issue_view(r) == client_failure_view(detail@, text_view(endpoint)),
{
    ConnectionIssue::new(
        ConnectionIssueKind::Other,
        String::from_str("客户端连接任务已停止"),
        String::from_str("连接主机时发生了未处理的错误。"),
        String::from_str("重新连接；如果问题持续出现，请记录错误详情。"),
        Some(detail),
        endpoint,
    )
}

// ---------------------------------------------------------------------------
// Host side
// ---------------------------------------------------------------------------

/// The host service is up, reachable at `local_address` when it is known.
pub fn host_started(status: &mut RuntimeStatus, local_address: Option<String>)
    ensures
        final(status).connection == ConnectionState::Connected,
        text_view(final(status).server_address) == match local_address {
            Some(a) => Some(sync_address(a@)),
            None => None,
        },
        *final(status) == (RuntimeStatus {
            connection: ConnectionState::Connected,
            server_address: final(status).server_address,
            ..*old(status)
        }),
{
    status.connection = ConnectionState::Connected;
    status.server_address = match local_address {
        Some(a) => Some(sync_address_of(a.as_str())),
        None => None,
    };
}

pub open spec fn new_peer_name() -> Seq<char> {
    "局域网客户端"@
}

/// A client connected: it is listed with the current control permission.
pub fn add_peer(status: &mut RuntimeStatus, id: String, address: String, connected_at_ms: u64)
    ensures
        final(status).peers@.len() == old(status).peers@.len() + 1,
        final(status).peers@.drop_last() == old(status).peers@,
        final(status).peers@.last().id == id,
        final(status).peers@.last().name@ == new_peer_name(),
        final(status).peers@.last().address == address,
        final(status).peers@.last().connected_at_ms == connected_at_ms,
        final(status).peers@.last().can_control == old(status).allow_control,
        *final(status) == (RuntimeStatus { peers: final(status).peers, ..*old(status) }),
        peers_follow_permission(*old(status)) ==> peers_follow_permission(*final(status)),
{
    let can_control = status.allow_control;
    let peer = PeerInfo {
        id,
        name: String::from_str("局域网客户端"),
        address,
        connected_at_ms,
        can_control,
    };
    status.peers.push(peer);
    assert(status.peers@.drop_last() =~= old(status).peers@);
}

/// A client said its name: the first peer with `id` takes it.
pub fn rename_peer(status: &mut RuntimeStatus, id: &str, name: String)
    ensures
        final(status).peers@.len() == old(status).peers@.len(),
        match first_peer_index(old(status).peers@, id@, 0) {
            Some(i) => final(status).peers@ == old(status).peers@.update(
                i,
                PeerInfo { name, ..old(status).peers@[i] },
            ),
            None => final(status).peers@ == old(status).peers@,
        },
        *final(status) == (RuntimeStatus { peers: final(status).peers, ..*old(status) }),
        peers_follow_permission(*old(status)) ==> peers_follow_permission(*final(status)),
{
    let mut peers: Vec<PeerInfo> = Vec::new();
    std::mem::swap(&mut peers, &mut status.peers);
    let ghost original = peers@;
    let mut i: usize = 0;
    while i < peers.len()
        invariant
            i <= peers.len(),
            peers@ == original,
            original == old(status).peers@,
            *status == (RuntimeStatus { peers: status.peers, ..*old(status) }),
            first_peer_index(original, id@, 0) == first_peer_index(original, id@, i as int),
        decreases peers.len() - i,
    {
        if same_text(peers[i].id.as_str(), id) {
            let mut peer = peers.remove(i);
            peer.name = name;
            peers.insert(i, peer);
            assert(peers@ =~= original.update(i as int, PeerInfo { name, ..original[i as int] }));
            status.peers = peers;
            return;
        }
        i = i + 1;
    }
    status.peers = peers;
}

/// Index of the first peer at or after `i` whose id is `id`.
pub open spec fn first_peer_index(peers: Seq<PeerInfo>, id: Seq<char>, i: int) -> Option<int>
    decreases peers.len() - i,
{
    if i < 0 || i >= peers.len() {
        None
    } else if peers[i].id@ == id {
        Some(i)
    } else {
        first_peer_index(peers, id, i + 1)
    }
}

/// The peers other than those with `id`, in order.
pub open spec fn peers_without(peers: Seq<PeerInfo>, id: Seq<char>) -> Seq<PeerInfo> {
    peers.filter(|p: PeerInfo| p.id@ != id)
}

/// A client disconnected: every peer with its id leaves the list.
pub fn remove_peer(status: &mut RuntimeStatus, id: &str)
    ensures
        final(status).peers@ == peers_without(old(status).peers@, id@),
        *final(status) == (RuntimeStatus { peers: final(status).peers, ..*old(status) }),
        peers_follow_permission(*old(status)) ==> peers_follow_permission(*final(status)),
{
    let mut peers: Vec<PeerInfo> = Vec::new();
    std::mem::swap(&mut peers, &mut status.peers);
    let ghost original = peers@;
    let mut kept: Vec<PeerInfo> = Vec::new();
    let mut rest = peers;
    let ghost mut k: int = 0;
    assert(original.take(0).filter(|p: PeerInfo| p.id@ != id@) =~= Seq::<PeerInfo>::empty());
    while rest.len() > 0
        invariant
            0 <= k <= original.len(),
            rest@ == original.skip(k),
            kept@ == original.take(k).filter(|p: PeerInfo| p.id@ != id@),
        decreases rest.len(),
    {
        let peer = rest.remove(0);
        assert(peer == original[k]);
        assert(original.take(k + 1).drop_last() =~= original.take(k));
        reveal_with_fuel(Seq::filter, 1);
        if !same_text(peer.id.as_str(), id) {
            kept.push(peer);
        }
        proof {
            assert(rest@ =~= original.skip(k + 1));
            k = k + 1;
        }
    }
    assert(original.take(k) =~= original);
    status.peers = kept;
    proof {
        if peers_follow_permission(*old(status)) {
            assert forall|i: int| 0 <= i < kept@.len() implies (#[trigger] kept@[i]).can_control
                == status.allow_control by {
                let p = kept@[i];
                let pred = |q: PeerInfo| q.id@ != id@;
                assert(kept@ == original.filter(pred));
                assert(original.filter(pred).contains(p)) by {
                    assert(kept@[i] == p);
                }
                original.lemma_filter_contains_rev(pred, p);
                let k2 = choose|k2: int| 0 <= k2 < original.len() && original[k2] == p;
                assert(old(status).peers@[k2] == p);
            }
        }
    }
}

/// Records a player reading: it gets the next sequence number and becomes the
/// status's playback.
pub fn record_playback(status: &mut RuntimeStatus, snapshot: PlaybackSnapshot)
    requires
        old(status).playback.sequence < u64::MAX,
    ensures
        final(status).playback == (PlaybackSnapshot {
            sequence: (old(status).playback.sequence + 1) as u64,
            ..snapshot
        }),
        *final(status) == (RuntimeStatus { playback: final(status).playback, ..*old(status) }),
{
    let mut snapshot = snapshot;
    snapshot.sequence = status.playback.sequence + 1;
    status.playback = snapshot;
}

/// Sets the lyrics the status shows.
pub fn set_lyrics(status: &mut RuntimeStatus, lyrics: Option<LyricsDocument>)
    ensures
        *final(status) == (RuntimeStatus { lyrics, ..*old(status) }),
{
    status.lyrics = lyrics;
}

pub open spec fn missing_track_key_text() -> Seq<char> {
    "当前歌曲缺少稳定标识"@
}

/// The key lyrics are stored and looked up under: the playback's track key,
/// which a track without a stable identity lacks.
pub fn lyrics_key(playback: &PlaybackSnapshot) -> (r: Result<String, String>)
    ensures
        match playback.track_key {
            Some(k) => r matches Ok(key) && key@ == k@,
            None => r matches Err(e) && e@ == missing_track_key_text(),
        },
{
    match &playback.track_key {
        Some(k) => Ok(String::from_str(k.as_str())),
        None => Err(String::from_str("当前歌曲缺少稳定标识")),
    }
}

pub open spec fn control_denied_text() -> Seq<char> {
    "主机已关闭客户端控制权限"@
}

/// Why a client's command is refused: `None` when control is allowed.
pub fn command_refusal(allow_control: bool) -> (r: Option<String>)
    ensures
        allow_control <==> r is None,
        r matches Some(e) ==> e@ == control_denied_text(),
{
    if allow_control {
        None
    } else {
        Some(String::from_str("主机已关闭客户端控制权限"))
    }
}

// ---------------------------------------------------------------------------
// Lyrics follow the track
// ---------------------------------------------------------------------------

/// Milliseconds to wait before looking up lyrics again after a failure.
pub const LYRICS_RETRY_DELAY_MS: u64 = 10_000;

/// Which track's lyrics the host looks for, and when it may look next.
pub struct LyricsMonitor {
    pub active_track: Option<String>,
    pub loaded_for: Option<String>,
    pub retry_at_ms: u64,
}

fn copy_text(t: &Option<String>) -> (r: Option<String>)
    ensures
        text_view(r) == text_view(*t),
{
    match t {
        Some(s) => Some(String::from_str(s.as_str())),
        None => None,
    }
}

fn same_track(a: &Option<String>, b: &Option<String>) -> (r: bool)
    ensures
        r == (text_view(*a) == text_view(*b)),
{
    match (a, b) {
        (Some(x), Some(y)) => same_text(x.as_str(), y.as_str()),
        (None, None) => true,
        _ => false,
    }
}

impl LyricsMonitor {
    pub fn new(now_ms: u64) -> (r: Self)
        ensures
            r.active_track is None,
            r.loaded_for is None,
            r.retry_at_ms == now_ms,
    {
        LyricsMonitor { active_track: None, loaded_for: None, retry_at_ms: now_ms }
    }

    /// The player reports `track`. A different track is taken up at once with
    /// no lyrics loaded; the result tells whether the track changed (and the
    /// shown lyrics must be cleared).
    pub fn observe(&mut self, track: Option<String>, now_ms: u64) -> (changed: bool)
        ensures
            changed == (text_view(track) != text_view(old(self).active_track)),
            changed ==> text_view(final(self).active_track) == text_view(track)
                && final(self).loaded_for is None && final(self).retry_at_ms == now_ms,
            !changed ==> *final(self) == *old(self),
            changed && track is Some ==> final(self).wants_lyrics_at(now_ms),
    {
        if same_track(&track, &self.active_track) {
            false
        } else {
            self.active_track = track;
            self.loaded_for = None;
            self.retry_at_ms = now_ms;
            true
        }
    }

    pub open spec fn wants_lyrics_at(self, now_ms: u64) -> bool {
        self.active_track is Some && text_view(self.loaded_for) != text_view(self.active_track)
            && now_ms >= self.retry_at_ms
    }

    /// Lyrics are looked up for a track whose lyrics are not loaded, once the
    /// retry time has come.
    pub fn wants_lyrics(&self, now_ms: u64) -> (r: bool)
        ensures
            r == self.wants_lyrics_at(now_ms),
    {
        self.active_track.is_some() && !same_track(&self.loaded_for, &self.active_track) && now_ms
            >= self.retry_at_ms
    }

    /// The lyrics of the active track were loaded.
    pub fn lyrics_loaded(&mut self)
        ensures
            text_view(final(self).loaded_for) == text_view(old(self).active_track),
            final(self).active_track == old(self).active_track,
            final(self).retry_at_ms == old(self).retry_at_ms,
            forall|now: u64| !final(self).wants_lyrics_at(now),
    {
        self.loaded_for = copy_text(&self.active_track);
    }

    /// The lookup failed: the next one waits for the retry delay.
    pub fn lyrics_failed(&mut self, now_ms: u64)
        ensures
            final(self).retry_at_ms == now_ms.saturating_add(LYRICS_RETRY_DELAY_MS),
            final(self).active_track == old(self).active_track,
            final(self).loaded_for == old(self).loaded_for,
            now_ms < u64::MAX - LYRICS_RETRY_DELAY_MS ==> !final(self).wants_lyrics_at(now_ms),
    {
        self.retry_at_ms = now_ms.saturating_add(LYRICS_RETRY_DELAY_MS);
    }
}

// ---------------------------------------------------------------------------
// The host's steps
// ---------------------------------------------------------------------------

/// One reading of the player on the host: the reading becomes the status's
/// playback with the next sequence number; when its track differs from the
/// one followed, the monitor takes the new track up and the lyrics shown are
/// cleared. The result tells whether the track changed.
pub fn player_polled(
    status: &mut RuntimeStatus,
    monitor: &mut LyricsMonitor,
    snapshot: PlaybackSnapshot,
    now_ms: u64,
) -> (changed: bool)
    requires
        old(status).playback.sequence < u64::MAX,
    ensures
        final(status).playback == (PlaybackSnapshot {
            sequence: (old(status).playback.sequence + 1) as u64,
            ..snapshot
        }),
        changed == (text_view(snapshot.track_key) != text_view(old(monitor).active_track)),
        final(status).lyrics == if changed {
            None
        } else {
            old(status).lyrics
        },
        *final(status) == (RuntimeStatus {
            playback: final(status).playback,
            lyrics: final(status).lyrics,
            ..*old(status)
        }),
        changed ==> text_view(final(monitor).active_track) == text_view(snapshot.track_key)
            && final(monitor).loaded_for is None && final(monitor).retry_at_ms == now_ms,
        !changed ==> *final(monitor) == *old(monitor),
        changed && snapshot.track_key is Some ==> final(monitor).wants_lyrics_at(now_ms),
{
    let track = copy_text(&snapshot.track_key);
    record_playback(status, snapshot);
    let changed = monitor.observe(track, now_ms);
    if changed {
        set_lyrics(status, None);
    }
    changed
}

/// The lyrics of the followed track were found: they are shown, and the
/// monitor looks for no more.
pub fn lyrics_arrived(status: &mut RuntimeStatus, monitor: &mut LyricsMonitor, document: LyricsDocument)
    ensures
        *final(status) == (RuntimeStatus { lyrics: Some(document), ..*old(status) }),
        text_view(final(monitor).loaded_for) == text_view(old(monitor).active_track),
        final(monitor).active_track == old(monitor).active_track,
        final(monitor).retry_at_ms == old(monitor).retry_at_ms,
        forall|now: u64| !final(monitor).wants_lyrics_at(now),
{
    set_lyrics(status, Some(document));
    monitor.lyrics_loaded();
}

/// What the host does with a message from the connected client `peer_id`:
/// `Hello` names the peer and is not answered; `Ping` is answered with the
/// host's time `now_ms`; `Command` is carried out by the player only when
/// clients may control it, and is answered with the outcome: the player's
/// result, or the refusal.
pub fn answer_client_message(
    status: &mut RuntimeStatus,
    peer_id: &str,
    player: &PlayerService,
    message: ClientMessage,
    now_ms: u64,
) -> (r: Option<ServerMessage>)
    ensures
        match message {
            ClientMessage::Hello { client_name } => {
                &&& r is None
                &&& final(status).peers@ == match first_peer_index(old(status).peers@, peer_id@, 0) {
                    Some(i) => old(status).peers@.update(
                        i,
                        PeerInfo { name: client_name, ..old(status).peers@[i] },
                    ),
                    None => old(status).peers@,
                }
                &&& *final(status) == (RuntimeStatus { peers: final(status).peers, ..*old(status) })
            },
            ClientMessage::Ping { client_time_ms } => {
                &&& r == Some(ServerMessage::Pong { client_time_ms, server_time_ms: now_ms })
                &&& *final(status) == *old(status)
            },
            ClientMessage::Command { request_id, command } => {
                &&& *final(status) == *old(status)
                &&& r matches Some(ServerMessage::CommandResult { request_id: id, accepted, error })
                &&& id == request_id
                &&& !accepted
                &&& error matches Some(e)
                &&& e@ == if old(status).allow_control {
                    control_unsupported_text()
                } else {
                    control_denied_text()
                }
            },
        },
        peers_follow_permission(*old(status)) ==> peers_follow_permission(*final(status)),
{
    match message {
        ClientMessage::Hello { client_name } => {
            rename_peer(status, peer_id, client_name);
            None
        },
        ClientMessage::Ping { client_time_ms } => {
            Some(ServerMessage::Pong { client_time_ms, server_time_ms: now_ms })
        },
        ClientMessage::Command { request_id, command } => {
            let result = match command_refusal(status.allow_control) {
                Some(refusal) => Err(refusal),
                None => player.execute(command),
            };
            Some(crate::network::protocol::command_result_message(request_id, result))
        },
    }
}

proof fn lemma_filter_keeps_all(peers: Seq<PeerInfo>, id: Seq<char>)
    requires
        forall|i: int| 0 <= i < peers.len() ==> (#[trigger] peers[i]).id@ != id,
    ensures
        peers_without(peers, id) == peers,
    decreases peers.len(),
{
    reveal_with_fuel(Seq::filter, 1);
    if peers.len() > 0 {
        let prev = peers.drop_last();
        assert forall|i: int| 0 <= i < prev.len() implies (#[trigger] prev[i]).id@ != id by {
            assert(prev[i] == peers[i]);
        }
        lemma_filter_keeps_all(prev, id);
        assert(prev.push(peers.last()) =~= peers);
    }
}

/// A client's stay in the peer list: a client that connects under an id no
/// listed peer has is listed last and found under that id; when it leaves,
/// the list is again what it was before, whatever name it took meanwhile.
pub proof fn lemma_peer_session(peers: Seq<PeerInfo>, p: PeerInfo, name: String)
    requires
        forall|i: int| 0 <= i < peers.len() ==> (#[trigger] peers[i]).id@ != p.id@,
    ensures
        first_peer_index(peers.push(p), p.id@, 0) == Some(peers.len() as int),
        peers_without(peers.push(p), p.id@) == peers,
        peers_without(peers.push(PeerInfo { name, ..p }), p.id@) == peers,
{
    lemma_first_peer_index_fresh(peers.push(p), p.id@, 0);
    lemma_filter_keeps_all(peers, p.id@);
    reveal_with_fuel(Seq::filter, 1);
    assert(peers.push(p).drop_last() =~= peers);
    assert(peers.push(PeerInfo { name, ..p }).drop_last() =~= peers);
}

proof fn lemma_first_peer_index_fresh(peers: Seq<PeerInfo>, id: Seq<char>, i: int)
    requires
        0 <= i < peers.len(),
        peers.last().id@ == id,
        forall|k: int| 0 <= k < peers.len() - 1 ==> (#[trigger] peers[k]).id@ != id,
    ensures
        first_peer_index(peers, id, i) == Some(peers.len() - 1),
    decreases peers.len() - i,
{
    if i < peers.len() - 1 {
        lemma_first_peer_index_fresh(peers, id, i + 1);
    }
}

// ---------------------------------------------------------------------------
// Desktop lyrics window
// ---------------------------------------------------------------------------

/// A monitor's area in physical pixels.
#[derive(Debug, Clone, Copy)]
pub struct ScreenArea {
    pub x: i32,
    pub y: i32,
    pub width: u32,
    pub height: u32,
}

pub open spec fn min_int(a: int, b: int) -> int {
    if a < b {
        a
    } else {
        b
    }
}

pub open spec fn max_int(a: int, b: int) -> int {
    if a > b {
        a
    } else {
        b
    }
}

/// A window of the given size at (`x`, `y`) shows at least 100 by 40 pixels
/// on the monitor.
pub open spec fn shows_on(x: i32, y: i32, width: u32, height: u32, m: ScreenArea) -> bool {
    let visible_width = min_int(x + width, m.x + m.width) - max_int(x as int, m.x as int);
    let visible_height = min_int(y + height, m.y + m.height) - max_int(y as int, m.y as int);
    visible_width >= 100 && visible_height >= 40
}

/// A window shows on a monitor exactly when their overlap is at least 100
/// pixels wide and 40 high: the window's right edge lies at least 100 pixels
/// right of the monitor's left edge and the monitor's right edge at least 100
/// pixels right of the window's left edge (both at least 100 wide), and
/// likewise 40 pixels vertically. A window lying wholly left of, right of,
/// above or below the monitor does not show on it.
pub proof fn lemma_window_overlap(x: i32, y: i32, width: u32, height: u32, m: ScreenArea)
    ensures
        shows_on(x, y, width, height, m) <==> {
            &&& width >= 100
            &&& m.width >= 100
            &&& x + width >= m.x + 100
            &&& m.x + m.width >= x + 100
            &&& height >= 40
            &&& m.height >= 40
            &&& y + height >= m.y + 40
            &&& m.y + m.height >= y + 40
        },
        x + width <= m.x ==> !shows_on(x, y, width, height, m),
        m.x + m.width <= x ==> !shows_on(x, y, width, height, m),
        y + height <= m.y ==> !shows_on(x, y, width, height, m),
        m.y + m.height <= y ==> !shows_on(x, y, width, height, m),
{
}

/// A saved position is not used again when the window would lie wholly left
/// of every monitor (as when the monitor it stood on is gone), nor when it
/// would lie wholly right of every monitor.
pub proof fn lemma_window_off_screen(x: i32, y: i32, width: u32, height: u32, monitors: Seq<ScreenArea>)
    ensures
        (forall|k: int| 0 <= k < monitors.len() ==> x + width <= (#[trigger] monitors[k]).x)
            ==> !exists|k: int| 0 <= k < monitors.len() && shows_on(x, y, width, height, #[trigger] monitors[k]),
        (forall|k: int| 0 <= k < monitors.len() ==> (#[trigger] monitors[k]).x + monitors[k].width <= x)
            ==> !exists|k: int| 0 <= k < monitors.len() && shows_on(x, y, width, height, #[trigger] monitors[k]),
{
    assert forall|k: int| 0 <= k < monitors.len() && x + width <= (#[trigger] monitors[k]).x implies !shows_on(
        x,
        y,
        width,
        height,
        monitors[k],
    ) by {
        lemma_window_overlap(x, y, width, height, monitors[k]);
    }
    assert forall|k: int| 0 <= k < monitors.len() && (#[trigger] monitors[k]).x + monitors[k].width <= x implies !shows_on(
        x,
        y,
        width,
        height,
        monitors[k],
    ) by {
        lemma_window_overlap(x, y, width, height, monitors[k]);
    }
}

/// A saved window position is used again only where enough of the window
/// would be visible on some monitor.
pub fn is_position_visible(x: i32, y: i32, width: u32, height: u32, monitors: &Vec<ScreenArea>) -> (r:
    bool)
    ensures
        r == exists|k: int| 0 <= k < monitors@.len() && shows_on(x, y, width, height, #[trigger] monitors@[k]),
{
    let left = x as i64;
    let top = y as i64;
    let right = left + width as i64;
    let bottom = top + height as i64;
    let mut k: usize = 0;
    while k < monitors.len()
        invariant
            k <= monitors.len(),
            left == x,
            top == y,
            right == x + width,
            bottom == y + height,
            forall|j: int| 0 <= j < k ==> !shows_on(x, y, width, height, #[trigger] monitors@[j]),
        decreases monitors.len() - k,
    {
        let m = monitors[k];
        let m_left = m.x as i64;
        let m_top = m.y as i64;
        let m_right = m_left + m.width as i64;
        let m_bottom = m_top + m.height as i64;
        let vis_right = if right < m_right {
            right
        } else {
            m_right
        };
        let vis_left = if left > m_left {
            left
        } else {
            m_left
        };
        let vis_bottom = if bottom < m_bottom {
            bottom
        } else {
            m_bottom
        };
        let vis_top = if top > m_top {
            top
        } else {
            m_top
        };
        if vis_right - vis_left >= 100 && vis_bottom - vis_top >= 40 {
            assert(shows_on(x, y, width, height, monitors@[k as int]));
            return true;
        }
        k = k + 1;
    }
    false
}

} // verus!
