//! The data the host and its clients share: roles, connection state and
//! diagnostics, playback snapshots, lyrics documents and peers.

use vstd::prelude::*;
use vstd::string::*;

verus! {

#[derive(Debug, Clone, Copy, PartialEq, Eq, Structural)]
pub enum AppRole {
    Host,
    Client,
}

impl Default for AppRole {
    fn default() -> (r: Self)
        ensures
            r == AppRole::Host,
    {
        AppRole::Host
    }
}

#[derive(Debug, Clone, Copy, PartialEq, Eq, Structural)]
pub enum ConnectionState {
    Idle,
    Discovering,
    Connecting,
    Connected,
    Offline,
}

impl Default for ConnectionState {
    fn default() -> (r: Self)
        ensures
            r == ConnectionState::Idle,
    {
        ConnectionState::Idle
    }
}

#[derive(Debug, Clone, Copy, PartialEq, Eq, Structural)]
pub enum ConnectionIssueKind {
    DiscoveryTimeout,
    DiscoveryFailed,
    ConnectionTimeout,
    ConnectionRefused,
    NetworkUnreachable,
    FirewallOrSecurity,
    ProtocolMismatch,
    Disconnected,
    Other,
}

/// A diagnosis of why the link to a host failed, written for the user.
#[derive(Debug, Clone, PartialEq, Eq)]
pub struct ConnectionIssue {
    pub kind: ConnectionIssueKind,
    pub title: String,
    pub message: String,
    pub suggestion: String,
    pub detail: Option<String>,
    pub endpoint: Option<String>,
    pub occurred_at_ms: u64,
}

/// Reads the system clock: `SystemTime::now().duration_since(UNIX_EPOCH)` in
/// milliseconds, `None` when the clock stands before the epoch. The reading
/// depends on the time of the call, so nothing is stated of it.
#[verifier::external_body]
fn clock_millis_since_epoch() -> (r: Option<u128>) {
    std::time::SystemTime::now().duration_since(std::time::UNIX_EPOCH).ok().map(|d| d.as_millis())
}

/// A clock reading as `now_ms` reports it: zero for a clock before the epoch,
/// otherwise the milliseconds cut to 64 bits as `as u64` does.
pub open spec fn reading_as_u64(reading: Option<u128>) -> u64 {
    match reading {
        Some(ms) => ms as u64,
        None => 0,
    }
}

fn clock_reading_ms(reading: Option<u128>) -> (r: u64)
    ensures
        r == reading_as_u64(reading),
{
    match reading {
        Some(ms) => ms as u64,
        None => 0,
    }
}

/// Milliseconds since the Unix epoch; zero when the clock reads earlier.
pub fn now_ms() -> u64 {
    clock_reading_ms(clock_millis_since_epoch())
}

/// The parts of an issue that describe it, without the time it was stamped.
pub struct IssueView {
    pub kind: ConnectionIssueKind,
    pub title: Seq<char>,
    pub message: Seq<char>,
    pub suggestion: Seq<char>,
    pub detail: Option<Seq<char>>,
    pub endpoint: Option<Seq<char>>,
}

pub open spec fn text_view(o: Option<String>) -> Option<Seq<char>> {
    match o {
        Some(s) => Some(s@),
        None => None,
    }
}

pub open spec fn issue_view(i: ConnectionIssue) -> IssueView {
    IssueView {
        kind: i.kind,
        title: i.title@,
        message: i.message@,
        suggestion: i.suggestion@,
        detail: text_view(i.detail),
        endpoint: text_view(i.endpoint),
    }
}

impl ConnectionIssue {
    /// An issue stamped with the current time.
    pub fn new(
        kind: ConnectionIssueKind,
        title: String,
        message: String,
        suggestion: String,
        detail: Option<String>,
        endpoint: Option<String>,
    ) -> (r: Self)
        ensures
            r.kind == kind,
            r.title == title,
            r.message == message,
            r.suggestion == suggestion,
            r.detail == detail,
            r.endpoint == endpoint,
    {
        ConnectionIssue {
            kind,
            title,
            message,
            suggestion,
            detail,
            endpoint,
            occurred_at_ms: now_ms(),
        }
    }
}

#[derive(Debug, Clone, Copy, PartialEq, Eq, Structural)]
pub enum PlayerCommand {
    TogglePlayPause,
    Previous,
    Next,
}

#[derive(Debug, Clone, Copy, PartialEq, Eq, Structural)]
pub struct PlaybackCapabilities {
    pub play_pause: bool,
    pub previous: bool,
    pub next: bool,
    pub seek: bool,
}

impl Default for PlaybackCapabilities {
    fn default() -> (r: Self)
        ensures
            !r.play_pause && !r.previous && !r.next && !r.seek,
    {
        PlaybackCapabilities { play_pause: false, previous: false, next: false, seek: false }
    }
}

/// What the player reports at one moment.
#[derive(Debug, Clone, PartialEq)]
pub struct PlaybackSnapshot {
    pub sequence: u64,
    pub track_key: Option<String>,
    pub title: Option<String>,
    pub artist: Option<String>,
    pub album: Option<String>,
    pub cover_url: Option<String>,
    pub source_app: Option<String>,
    pub duration_ms: Option<u64>,
    pub position_ms: Option<u64>,
    pub observed_at_ms: u64,
    pub playing: bool,
    pub capabilities: PlaybackCapabilities,
    pub error: Option<String>,
}

pub open spec fn waiting_for_session_text() -> Seq<char> {
    "等待 QQ 音乐媒体会话"@
}

/// An empty snapshot: no track, not playing, no capabilities.
pub open spec fn is_blank_snapshot(s: PlaybackSnapshot) -> bool {
    &&& s.sequence == 0
    &&& s.track_key is None
    &&& s.title is None
    &&& s.artist is None
    &&& s.album is None
    &&& s.cover_url is None
    &&& s.source_app is None
    &&& s.duration_ms is None
    &&& s.position_ms is None
    &&& !s.playing
    &&& s.capabilities == PlaybackCapabilities {
        play_pause: false,
        previous: false,
        next: false,
        seek: false,
    }
}

impl PlaybackSnapshot {
    /// A blank snapshot observed now that carries `error`.
    pub fn blank_with_error(error: String) -> (r: Self)
        ensures
            is_blank_snapshot(r),
            r.error == Some(error),
    {
        PlaybackSnapshot {
            sequence: 0,
            track_key: None,
            title: None,
            artist: None,
            album: None,
            cover_url: None,
            source_app: None,
            duration_ms: None,
            position_ms: None,
            observed_at_ms: now_ms(),
            playing: false,
            capabilities: PlaybackCapabilities::default(),
            error: Some(error),
        }
    }
}

impl Default for PlaybackSnapshot {
    /// Before any media session was seen.
    fn default() -> (r: Self)
        ensures
            is_blank_snapshot(r),
            r.error matches Some(e) && e@ == waiting_for_session_text(),
    {
        PlaybackSnapshot::blank_with_error(String::from_str("等待 QQ 音乐媒体会话"))
    }
}

pub struct LyricsWordView {
    pub text: Seq<char>,
    pub start_ms: u64,
    pub end_ms: u64,
}

#[derive(Debug, Clone, PartialEq, Eq)]
pub struct LyricsWord {
    pub text: String,
    pub start_ms: u64,
    pub end_ms: u64,
}

impl DeepView for LyricsWord {
    type V = LyricsWordView;

    open spec fn deep_view(&self) -> LyricsWordView {
        LyricsWordView { text: self.text@, start_ms: self.start_ms, end_ms: self.end_ms }
    }
}

pub struct LyricsLineView {
    pub text: Seq<char>,
    pub start_ms: u64,
    pub end_ms: Option<u64>,
    pub words: Option<Seq<LyricsWordView>>,
}

#[derive(Debug, Clone, PartialEq, Eq)]
pub struct LyricsLine {
    pub text: String,
    pub start_ms: u64,
    pub end_ms: Option<u64>,
    pub words: Option<Vec<LyricsWord>>,
}

impl DeepView for LyricsLine {
    type V = LyricsLineView;

    open spec fn deep_view(&self) -> LyricsLineView {
        LyricsLineView {
            text: self.text@,
            start_ms: self.start_ms,
            end_ms: self.end_ms,
            words: self.words.deep_view(),
        }
    }
}

#[derive(Debug, Clone, PartialEq, Eq)]
pub struct LyricsTrack {
    pub lines: Vec<LyricsLine>,
}

impl Default for LyricsTrack {
    fn default() -> (r: Self)
        ensures
            r.lines@.len() == 0,
    {
        LyricsTrack { lines: Vec::new() }
    }
}

pub struct LyricsDocumentView {
    pub track_key: Seq<char>,
    pub source: Seq<char>,
    pub offset_ms: i64,
    pub original: Seq<LyricsLineView>,
    pub translation: Option<Seq<LyricsLineView>>,
    pub romanization: Option<Seq<LyricsLineView>>,
}

#[derive(Debug, Clone, PartialEq, Eq)]
pub struct LyricsDocument {
    pub track_key: String,
    pub source: String,
    pub offset_ms: i64,
    pub original: LyricsTrack,
    pub translation: Option<LyricsTrack>,
    pub romanization: Option<LyricsTrack>,
}

pub open spec fn track_view(t: Option<LyricsTrack>) -> Option<Seq<LyricsLineView>> {
    match t {
        Some(t) => Some(t.lines.deep_view()),
        None => None,
    }
}

impl DeepView for LyricsDocument {
    type V = LyricsDocumentView;

    open spec fn deep_view(&self) -> LyricsDocumentView {
        LyricsDocumentView {
            track_key: self.track_key@,
            source: self.source@,
            offset_ms: self.offset_ms,
            original: self.original.lines.deep_view(),
            translation: track_view(self.translation),
            romanization: track_view(self.romanization),
        }
    }
}

#[derive(Debug, Clone, PartialEq, Eq)]
pub struct PeerInfo {
    pub id: String,
    pub name: String,
    pub address: String,
    pub connected_at_ms: u64,
    pub can_control: bool,
}

pub struct HostInfoView {
    pub id: Seq<char>,
    pub name: Seq<char>,
    pub address: Seq<char>,
    pub port: u16,
    pub latency_ms: Option<u64>,
}

#[derive(Debug, Clone, PartialEq, Eq)]
pub struct HostInfo {
    pub id: String,
    pub name: String,
    pub address: String,
    pub port: u16,
    pub latency_ms: Option<u64>,
}

impl DeepView for HostInfo {
    type V = HostInfoView;

    open spec fn deep_view(&self) -> HostInfoView {
        HostInfoView {
            id: self.id@,
            name: self.name@,
            address: self.address@,
            port: self.port,
            latency_ms: self.latency_ms,
        }
    }
}

/// Everything the user interface shows about the runtime.
#[derive(Debug, Clone)]
pub struct RuntimeStatus {
    pub role: AppRole,
    pub connection: ConnectionState,
    pub connection_error: Option<ConnectionIssue>,
    pub preferred_server_address: Option<String>,
    pub server_name: String,
    pub server_address: Option<String>,
    pub allow_control: bool,
    pub peers: Vec<PeerInfo>,
    pub hosts: Vec<HostInfo>,
    pub playback: PlaybackSnapshot,
    pub lyrics: Option<LyricsDocument>,
}

} // verus!
