//! The media player as the host sees it: the platform-neutral service, and
//! the decisions the Windows media-session reader makes about titles, sources
//! and timelines.

use vstd::prelude::*;
use vstd::string::*;
use crate::lyrics::qqmusic::{normalize, normalized};
use crate::models::{is_blank_snapshot, text_view, PlaybackCapabilities, PlaybackSnapshot, PlayerCommand};
use crate::text::{
    append_chars, append_str, chars_of, contains_text, contains_text_exec, decimal_chars,
    decimal_string, string_of, trim, trim_chars,
};

verus! {

/// The player reached through the operating system's media session. Without
/// a Windows media session it reports that it cannot watch or control a
/// player.
#[derive(Debug, Default)]
pub struct PlayerService {}

pub open spec fn watch_unsupported_text() -> Seq<char> {
    "播放器监听当前仅支持 Windows"@
}

pub open spec fn control_unsupported_text() -> Seq<char> {
    "播放器控制当前仅支持 Windows"@
}

impl PlayerService {
    /// A blank snapshot that says the player cannot be watched here.
    pub fn snapshot(&self) -> (r: PlaybackSnapshot)
        ensures
            is_blank_snapshot(r),
            r.error matches Some(e) && e@ == watch_unsupported_text(),
    {
        PlaybackSnapshot::blank_with_error(String::from_str("播放器监听当前仅支持 Windows"))
    }

    /// Refuses the command: the player cannot be controlled here.
    pub fn execute(&self, command: PlayerCommand) -> (r: Result<(), String>)
        ensures
            r matches Err(e) && e@ == control_unsupported_text(),
    {
        Err(String::from_str("播放器控制当前仅支持 Windows"))
    }
}

/// Cached title, artist and album are read again after this many milliseconds.
pub const METADATA_REFRESH_INTERVAL_MS: u128 = 10_000;

/// A position this far behind the last one means the track started over.
pub const POSITION_RESET_TOLERANCE_MS: u64 = 2_000;

/// The metadata is read again when there is none, when it is old or of unknown
/// age, when the track length changed, or when the position jumped back by
/// more than the tolerance.
pub open spec fn refresh_needed(
    has_metadata: bool,
    metadata_age_ms: Option<u128>,
    previous_position_ms: Option<u64>,
    position_ms: Option<u64>,
    previous_duration_ms: Option<u64>,
    duration_ms: Option<u64>,
) -> bool {
    ||| !has_metadata
    ||| metadata_age_ms is None
    ||| metadata_age_ms.unwrap() >= METADATA_REFRESH_INTERVAL_MS
    ||| (previous_duration_ms is Some && duration_ms is Some && previous_duration_ms.unwrap()
        != duration_ms.unwrap())
    ||| (previous_position_ms is Some && position_ms is Some
        && position_ms.unwrap().saturating_add(POSITION_RESET_TOLERANCE_MS)
        < previous_position_ms.unwrap())
}

/// Whether to read title, artist and album again. Ages are in milliseconds,
/// as `Duration::as_millis` gives them.
pub fn should_refresh_metadata(
    has_metadata: bool,
    metadata_age_ms: Option<u128>,
    previous_position_ms: Option<u64>,
    position_ms: Option<u64>,
    previous_duration_ms: Option<u64>,
    duration_ms: Option<u64>,
) -> (r: bool)
    ensures
        r == refresh_needed(
            has_metadata,
            metadata_age_ms,
            previous_position_ms,
            position_ms,
            previous_duration_ms,
            duration_ms,
        ),
{
    let stale = match metadata_age_ms {
        None => true,
        Some(age) => age >= METADATA_REFRESH_INTERVAL_MS,
    };
    let length_changed = match (previous_duration_ms, duration_ms) {
        (Some(previous), Some(current)) => previous != current,
        _ => false,
    };
    if !has_metadata || stale || length_changed {
        return true;
    }
    match (previous_position_ms, position_ms) {
        (Some(previous), Some(current)) => current.saturating_add(POSITION_RESET_TOLERANCE_MS)
            < previous,
        _ => false,
    }
}

pub open spec fn ascii_lower(c: char) -> char {
    if 65 <= (c as u32) <= 90 {
        ((c as u32) + 32) as char
    } else {
        c
    }
}

/// `str::to_ascii_lowercase`.
pub open spec fn ascii_lowercase(s: Seq<char>) -> Seq<char> {
    s.map_values(|c: char| ascii_lower(c))
}

fn ascii_lower_char(c: char) -> (r: char)
    ensures
        r == ascii_lower(c),
{
    match c {
        'A' => 'a',
        'B' => 'b',
        'C' => 'c',
        'D' => 'd',
        'E' => 'e',
        'F' => 'f',
        'G' => 'g',
        'H' => 'h',
        'I' => 'i',
        'J' => 'j',
        'K' => 'k',
        'L' => 'l',
        'M' => 'm',
        'N' => 'n',
        'O' => 'o',
        'P' => 'p',
        'Q' => 'q',
        'R' => 'r',
        'S' => 's',
        'T' => 't',
        'U' => 'u',
        'V' => 'v',
        'W' => 'w',
        'X' => 'x',
        'Y' => 'y',
        'Z' => 'z',
        _ => c,
    }
}

/// A media session of QQ Music: its application id names QQ Music or Tencent's
/// QQ, letter case aside.
pub open spec fn qq_music_source(source: Seq<char>) -> bool {
    let s = ascii_lowercase(source);
    contains_text(s, "qqmusic"@) || contains_text(s, "qq music"@) || contains_text(
        s,
        "tencent.qq"@,
    )
}

pub fn is_qq_music_source(source: &str) -> (r: bool)
    ensures
        r == qq_music_source(source@),
{
    let chars = chars_of(source);
    let mut lower: Vec<char> = Vec::new();
    let mut k: usize = 0;
    while k < chars.len()
        invariant
            k <= chars.len(),
            chars@ == source@,
            lower@ == ascii_lowercase(chars@.take(k as int)),
        decreases chars.len() - k,
    {
        lower.push(ascii_lower_char(chars[k]));
        k = k + 1;
        assert(lower@ =~= ascii_lowercase(chars@.take(k as int)));
    }
    assert(chars@.take(chars.len() as int) =~= chars@);
    contains_text_exec(&lower, &chars_of("qqmusic")) || contains_text_exec(
        &lower,
        &chars_of("qq music"),
    ) || contains_text_exec(&lower, &chars_of("tencent.qq"))
}

pub open spec fn no_session_text() -> Seq<char> {
    "没有检测到 QQ 音乐的 Windows 媒体会话，请确认 QQ 音乐正在运行并播放过歌曲"@
}

/// The error shown while no QQ Music media session is found.
pub fn no_session_error() -> (r: String)
    ensures
        r@ == no_session_text(),
{
    String::from_str("没有检测到 QQ 音乐的 Windows 媒体会话，请确认 QQ 音乐正在运行并播放过歌曲")
}

/// Media timeline ticks (100 ns) as milliseconds; negative ticks have none.
pub fn ticks_to_ms(ticks: i64) -> (r: Option<u64>)
    ensures
        r == if ticks >= 0 {
            Some((ticks / 10_000) as u64)
        } else {
            None::<u64>
        },
{
    if ticks >= 0 {
        Some((ticks / 10_000) as u64)
    } else {
        None
    }
}

/// A text trimmed, or nothing when it is blank.
pub open spec fn non_empty_text(value: Seq<char>) -> Option<Seq<char>> {
    if trim(value).len() > 0 {
        Some(trim(value))
    } else {
        None
    }
}

pub fn non_empty(value: String) -> (r: Option<String>)
    ensures
        text_view(r) == non_empty_text(value@),
{
    let chars = chars_of(value.as_str());
    let trimmed = trim_chars(&chars);
    if trimmed.len() > 0 {
        Some(string_of(&trimmed))
    } else {
        None
    }
}

/// The stable key of a track read from the media session:
/// `smtc:<title>|<artist>|<duration>`, title and artist normalized.
pub open spec fn smtc_key(title: Seq<char>, artist: Seq<char>, duration_ms: Option<u64>) -> Seq<
    char,
> {
    "smtc:"@ + normalized(title) + "|"@ + normalized(artist) + "|"@ + decimal_string(
        match duration_ms {
            Some(d) => d as nat,
            None => 0,
        },
    )
}

pub fn smtc_track_key(title: &str, artist: Option<&str>, duration_ms: Option<u64>) -> (r: String)
    ensures
        r@ == smtc_key(
            title@,
            match artist {
                Some(a) => a@,
                None => Seq::empty(),
            },
            duration_ms,
        ),
{
    let mut out: Vec<char> = Vec::new();
    append_str(&mut out, "smtc:");
    let t = normalize(title);
    append_str(&mut out, t.as_str());
    append_str(&mut out, "|");
    let a = match artist {
        Some(a) => normalize(a),
        None => normalize(""),
    };
    proof {
        if artist is None {
            reveal_strlit("");
        }
    }
    append_str(&mut out, a.as_str());
    append_str(&mut out, "|");
    let d = match duration_ms {
        Some(d) => d,
        None => 0,
    };
    append_chars(&mut out, &decimal_chars(d));
    string_of(&out)
}

// ---------------------------------------------------------------------------
// What the media-session reader remembers between readings
// ---------------------------------------------------------------------------

/// Media sessions are looked for again at most this often, in milliseconds.
pub const SESSION_RETRY_INTERVAL_MS: u64 = 2_000;

/// Title, artist and album as last read from the media session.
#[derive(Debug, Clone)]
pub struct CachedMetadata {
    pub title: Option<String>,
    pub artist: Option<String>,
    pub album: Option<String>,
}

pub open spec fn no_metadata(m: CachedMetadata) -> bool {
    m.title is None && m.artist is None && m.album is None
}

impl CachedMetadata {
    pub fn empty() -> (r: Self)
        ensures
            no_metadata(r),
    {
        CachedMetadata { title: None, artist: None, album: None }
    }
}

/// Milliseconds from `then_ms` to `now_ms` on a monotonic clock; none when
/// `now_ms` is the earlier.
pub open spec fn elapsed_ms(now_ms: u64, then_ms: u64) -> u64 {
    if now_ms >= then_ms {
        (now_ms - then_ms) as u64
    } else {
        0
    }
}

/// What the media-session reader remembers: the session in use and its
/// application id, the cached metadata, and when sessions were last looked for
/// and metadata last read (milliseconds of a monotonic clock), with the last
/// position and length seen.
#[derive(Debug, Clone)]
pub struct SessionTracker {
    pub has_session: bool,
    pub source_app: Option<String>,
    pub metadata: CachedMetadata,
    pub last_session_scan_ms: Option<u64>,
    pub last_metadata_refresh_ms: Option<u64>,
    pub last_position_ms: Option<u64>,
    pub last_duration_ms: Option<u64>,
}

/// How a reading gets its media session.
#[derive(Debug, Clone, Copy, PartialEq, Eq, Structural)]
pub enum SessionStep {
    /// The session found before is used.
    UseCurrent,
    /// The sessions are looked through now.
    Scan,
    /// The last look was too recent: no session for now.
    Wait,
}

/// A timeline read from the session, and whether the metadata must be read
/// again before the snapshot is made.
#[derive(Debug, Clone, Copy, PartialEq, Eq, Structural)]
pub struct TimelineReading {
    pub position_ms: Option<u64>,
    pub duration_ms: Option<u64>,
    pub refresh_metadata: bool,
}

/// Title, artist and album as the media session reports them.
#[derive(Debug, Clone)]
pub struct MediaProperties {
    pub title: String,
    pub artist: String,
    pub album: String,
}

/// Which controls the session offers.
#[derive(Debug, Clone, Copy, PartialEq, Eq, Structural)]
pub struct SessionControls {
    pub play_pause_toggle: bool,
    pub play: bool,
    pub pause: bool,
    pub previous: bool,
    pub next: bool,
    pub playback_position: bool,
}

/// `i64::saturating_sub`.
pub open spec fn saturating_sub_i64(a: i64, b: i64) -> i64 {
    if a - b < i64::MIN {
        i64::MIN
    } else if a - b > i64::MAX {
        i64::MAX
    } else {
        (a - b) as i64
    }
}

fn saturating_sub_i64_exec(a: i64, b: i64) -> (r: i64)
    ensures
        r == saturating_sub_i64(a, b),
{
    if b >= 0 {
        if a < i64::MIN + b {
            i64::MIN
        } else {
            a - b
        }
    } else {
        if a > i64::MAX + b {
            i64::MAX
        } else {
            a - b
        }
    }
}

pub open spec fn ticks_ms(ticks: i64) -> Option<u64> {
    if ticks >= 0 {
        Some((ticks / 10_000) as u64)
    } else {
        None
    }
}

pub open spec fn dirty(t: SessionTracker) -> SessionTracker {
    SessionTracker {
        last_metadata_refresh_ms: None,
        last_position_ms: None,
        last_duration_ms: None,
        ..t
    }
}

pub open spec fn invalidated(t: SessionTracker) -> SessionTracker {
    SessionTracker {
        has_session: false,
        source_app: None,
        metadata: CachedMetadata { title: None, artist: None, album: None },
        last_session_scan_ms: None,
        ..dirty(t)
    }
}

pub open spec fn command_rejected_text() -> Seq<char> {
    "QQ 音乐拒绝了当前媒体控制命令"@
}

/// The capabilities a session's controls give: play/pause when it can toggle,
/// play or pause.
pub open spec fn capabilities_of(c: SessionControls) -> PlaybackCapabilities {
    PlaybackCapabilities {
        play_pause: c.play_pause_toggle || c.play || c.pause,
        previous: c.previous,
        next: c.next,
        seek: c.playback_position,
    }
}

/// Play/pause is offered when the session can toggle, play or pause, any one
/// of them alone; it is withheld only when all three are off. Previous, next
/// and seeking follow their own controls.
pub proof fn lemma_capabilities(c: SessionControls)
    ensures
        c.play_pause_toggle ==> capabilities_of(c).play_pause,
        c.play ==> capabilities_of(c).play_pause,
        c.pause ==> capabilities_of(c).play_pause,
        !capabilities_of(c).play_pause ==> !c.play_pause_toggle && !c.play && !c.pause,
        capabilities_of(c).previous == c.previous,
        capabilities_of(c).next == c.next,
        capabilities_of(c).seek == c.playback_position,
{
}

impl SessionTracker {
    /// Nothing found or read yet.
    pub fn new() -> (r: Self)
        ensures
            !r.has_session,
            r.source_app is None,
            no_metadata(r.metadata),
            r.last_session_scan_ms is None,
            r.last_metadata_refresh_ms is None,
            r.last_position_ms is None,
            r.last_duration_ms is None,
    {
        SessionTracker {
            has_session: false,
            source_app: None,
            metadata: CachedMetadata::empty(),
            last_session_scan_ms: None,
            last_metadata_refresh_ms: None,
            last_position_ms: None,
            last_duration_ms: None,
        }
    }

    pub open spec fn session_step_at(self, now_ms: u64) -> SessionStep {
        if self.has_session {
            SessionStep::UseCurrent
        } else if self.last_session_scan_ms is Some && elapsed_ms(
            now_ms,
            self.last_session_scan_ms.unwrap(),
        ) < SESSION_RETRY_INTERVAL_MS {
            SessionStep::Wait
        } else {
            SessionStep::Scan
        }
    }

    /// How this reading gets its session; a scan is remembered as made now.
    pub fn session_step(&mut self, now_ms: u64) -> (r: SessionStep)
        ensures
            r == old(self).session_step_at(now_ms),
            r == SessionStep::Scan ==> *final(self) == (SessionTracker {
                last_session_scan_ms: Some(now_ms),
                ..*old(self)
            }),
            r != SessionStep::Scan ==> *final(self) == *old(self),
    {
        if self.has_session {
            return SessionStep::UseCurrent;
        }
        match self.last_session_scan_ms {
            Some(t) => {
                let elapsed = if now_ms >= t {
                    now_ms - t
                } else {
                    0
                };
                if elapsed < SESSION_RETRY_INTERVAL_MS {
                    return SessionStep::Wait;
                }
            },
            None => {},
        }
        self.last_session_scan_ms = Some(now_ms);
        SessionStep::Scan
    }

    /// A QQ Music session was found: it is used from now on, and nothing is
    /// known yet of what it plays.
    pub fn session_found(&mut self, source: String)
        ensures
            *final(self) == (SessionTracker {
                has_session: true,
                source_app: Some(source),
                metadata: CachedMetadata { title: None, artist: None, album: None },
                ..dirty(*old(self))
            }),
            forall|now: u64, position: Option<u64>, duration: Option<u64>|
                #[trigger] final(self).refresh_wanted(now, position, duration),
    {
        self.has_session = true;
        self.source_app = Some(source);
        self.metadata = CachedMetadata::empty();
        self.last_metadata_refresh_ms = None;
        self.last_position_ms = None;
        self.last_duration_ms = None;
    }

    /// The next reading reads the metadata again and compares no timeline.
    pub fn mark_metadata_dirty(&mut self)
        ensures
            *final(self) == dirty(*old(self)),
            forall|now: u64, position: Option<u64>, duration: Option<u64>|
                #[trigger] final(self).refresh_wanted(now, position, duration),
    {
        self.last_metadata_refresh_ms = None;
        self.last_position_ms = None;
        self.last_duration_ms = None;
    }

    /// The session failed: it is forgotten with all that was read of it, and
    /// the next reading looks for sessions at once.
    pub fn invalidate_session(&mut self)
        ensures
            *final(self) == invalidated(*old(self)),
            forall|now: u64| #[trigger] final(self).session_step_at(now) == SessionStep::Scan,
    {
        self.has_session = false;
        self.source_app = None;
        self.metadata = CachedMetadata::empty();
        self.last_session_scan_ms = None;
        self.mark_metadata_dirty();
    }

    pub open spec fn metadata_age_at(self, now_ms: u64) -> Option<u128> {
        match self.last_metadata_refresh_ms {
            Some(t) => Some(elapsed_ms(now_ms, t) as u128),
            None => None,
        }
    }

    pub open spec fn refresh_wanted(
        self,
        now_ms: u64,
        position_ms: Option<u64>,
        duration_ms: Option<u64>,
    ) -> bool {
        refresh_needed(
            self.metadata.title is Some,
            self.metadata_age_at(now_ms),
            self.last_position_ms,
            position_ms,
            self.last_duration_ms,
            duration_ms,
        )
    }

    /// Reads a timeline given in ticks: the position, the length from start
    /// to end, and whether the metadata must be read again.
    pub fn read_timeline(&self, position_ticks: i64, start_ticks: i64, end_ticks: i64, now_ms: u64) -> (r:
        TimelineReading)
        ensures
            r.position_ms == ticks_ms(position_ticks),
            r.duration_ms == ticks_ms(saturating_sub_i64(end_ticks, start_ticks)),
            r.refresh_metadata == self.refresh_wanted(now_ms, r.position_ms, r.duration_ms),
    {
        let position_ms = ticks_to_ms(position_ticks);
        let duration_ms = ticks_to_ms(saturating_sub_i64_exec(end_ticks, start_ticks));
        let age: Option<u128> = match self.last_metadata_refresh_ms {
            Some(t) => {
                let elapsed = if now_ms >= t {
                    now_ms - t
                } else {
                    0
                };
                Some(elapsed as u128)
            },
            None => None,
        };
        let refresh_metadata = should_refresh_metadata(
            self.metadata.title.is_some(),
            age,
            self.last_position_ms,
            position_ms,
            self.last_duration_ms,
            duration_ms,
        );
        TimelineReading { position_ms, duration_ms, refresh_metadata }
    }

    /// Title, artist and album were read at `now_ms`; blank ones count as
    /// missing.
    pub fn metadata_read(&mut self, title: String, artist: String, album: String, now_ms: u64)
        ensures
            text_view(final(self).metadata.title) == non_empty_text(title@),
            text_view(final(self).metadata.artist) == non_empty_text(artist@),
            text_view(final(self).metadata.album) == non_empty_text(album@),
            final(self).last_metadata_refresh_ms == Some(now_ms),
            *final(self) == (SessionTracker {
                metadata: final(self).metadata,
                last_metadata_refresh_ms: Some(now_ms),
                ..*old(self)
            }),
    {
        let title = non_empty(title);
        let artist = non_empty(artist);
        let album = non_empty(album);
        self.metadata = CachedMetadata { title, artist, album };
        self.last_metadata_refresh_ms = Some(now_ms);
    }

    /// Makes the snapshot of a reading from the cached metadata; the timeline
    /// is remembered for the next reading.
    pub fn finish_snapshot(
        &mut self,
        reading: TimelineReading,
        playing: bool,
        controls: SessionControls,
        observed_at_ms: u64,
    ) -> (r: PlaybackSnapshot)
        ensures
            *final(self) == (SessionTracker {
                last_position_ms: reading.position_ms,
                last_duration_ms: reading.duration_ms,
                ..*old(self)
            }),
            r.sequence == 0,
            text_view(r.track_key) == match old(self).metadata.title {
                Some(t) => Some(
                    smtc_key(
                        t@,
                        match old(self).metadata.artist {
                            Some(a) => a@,
                            None => Seq::empty(),
                        },
                        reading.duration_ms,
                    ),
                ),
                None => None,
            },
            r.title == old(self).metadata.title,
            r.artist == old(self).metadata.artist,
            r.album == old(self).metadata.album,
            r.cover_url is None,
            r.source_app == old(self).source_app,
            r.duration_ms == reading.duration_ms,
            r.position_ms == reading.position_ms,
            r.observed_at_ms == observed_at_ms,
            r.playing == playing,
            r.capabilities == capabilities_of(controls),
            r.error is None,
    {
        self.last_position_ms = reading.position_ms;
        self.last_duration_ms = reading.duration_ms;
        let track_key = match &self.metadata.title {
            Some(t) => {
                let artist = match &self.metadata.artist {
                    Some(a) => Some(a.as_str()),
                    None => None,
                };
                Some(smtc_track_key(t.as_str(), artist, reading.duration_ms))
            },
            None => None,
        };
        PlaybackSnapshot {
            sequence: 0,
            track_key,
            title: self.metadata.title.clone(),
            artist: self.metadata.artist.clone(),
            album: self.metadata.album.clone(),
            cover_url: None,
            source_app: self.source_app.clone(),
            duration_ms: reading.duration_ms,
            position_ms: reading.position_ms,
            observed_at_ms,
            playing,
            capabilities: PlaybackCapabilities {
                play_pause: controls.play_pause_toggle || controls.play || controls.pause,
                previous: controls.previous,
                next: controls.next,
                seek: controls.playback_position,
            },
            error: None,
        }
    }

    /// One reading of a found session (see `session_step`): position and
    /// length come from the timeline ticks (`ticks_to_ms`, the length from
    /// end minus start, saturating); the metadata is taken from `media` when it
    /// must be read again and kept otherwise; the snapshot carries the metadata
    /// that now holds, the track key `smtc:<title>|<artist>|<length>` made of
    /// its own title, artist and length, and the session's state, with sequence
    /// 0, no cover and no error. The timeline is remembered.
    pub fn read_snapshot(
        &mut self,
        position_ticks: i64,
        start_ticks: i64,
        end_ticks: i64,
        now_ms: u64,
        media: Option<MediaProperties>,
        playing: bool,
        controls: SessionControls,
        observed_at_ms: u64,
    ) -> (r: PlaybackSnapshot)
        requires
            old(self).refresh_wanted(
                now_ms,
                ticks_ms(position_ticks),
                ticks_ms(saturating_sub_i64(end_ticks, start_ticks)),
            ) ==> media is Some,
        ensures
            old(self).refresh_wanted(
                now_ms,
                ticks_ms(position_ticks),
                ticks_ms(saturating_sub_i64(end_ticks, start_ticks)),
            ) ==> {
                &&& text_view(final(self).metadata.title) == non_empty_text(media.unwrap().title@)
                &&& text_view(final(self).metadata.artist) == non_empty_text(media.unwrap().artist@)
                &&& text_view(final(self).metadata.album) == non_empty_text(media.unwrap().album@)
                &&& final(self).last_metadata_refresh_ms == Some(now_ms)
            },
            !old(self).refresh_wanted(
                now_ms,
                ticks_ms(position_ticks),
                ticks_ms(saturating_sub_i64(end_ticks, start_ticks)),
            ) ==> final(self).metadata == old(self).metadata
                && final(self).last_metadata_refresh_ms == old(self).last_metadata_refresh_ms,
            final(self).last_position_ms == ticks_ms(position_ticks),
            final(self).last_duration_ms == ticks_ms(saturating_sub_i64(end_ticks, start_ticks)),
            final(self).has_session == old(self).has_session,
            final(self).source_app == old(self).source_app,
            final(self).last_session_scan_ms == old(self).last_session_scan_ms,
            r.sequence == 0,
            r.position_ms == ticks_ms(position_ticks),
            r.duration_ms == ticks_ms(saturating_sub_i64(end_ticks, start_ticks)),
            r.title == final(self).metadata.title,
            r.artist == final(self).metadata.artist,
            r.album == final(self).metadata.album,
            text_view(r.track_key) == match final(self).metadata.title {
                Some(t) => Some(
                    smtc_key(
                        t@,
                        match final(self).metadata.artist {
                            Some(a) => a@,
                            None => Seq::empty(),
                        },
                        ticks_ms(saturating_sub_i64(end_ticks, start_ticks)),
                    ),
                ),
                None => None,
            },
            text_view(r.track_key) == match r.title {
                Some(t) => Some(
                    smtc_key(
                        t@,
                        match r.artist {
                            Some(a) => a@,
                            None => Seq::empty(),
                        },
                        r.duration_ms,
                    ),
                ),
                None => None,
            },
            r.cover_url is None,
            r.source_app == old(self).source_app,
            r.observed_at_ms == observed_at_ms,
            r.playing == playing,
            r.capabilities == capabilities_of(controls),
            r.error is None,
    {
        let reading = self.read_timeline(position_ticks, start_ticks, end_ticks, now_ms);
        if reading.refresh_metadata {
            match media {
                Some(m) => {
                    self.metadata_read(m.title, m.artist, m.album, now_ms);
                },
                None => {},
            }
        }
        self.finish_snapshot(reading, playing, controls, observed_at_ms)
    }

    /// The answer of the session to a player command: accepted, refused, or
    /// failed with an error (which makes the session be looked for again).
    /// Skipping to another track makes the next reading read the metadata.
    pub fn command_finished(&mut self, command: PlayerCommand, outcome: Result<bool, String>) -> (r:
        Result<(), String>)
        ensures
            match outcome {
                Ok(true) => {
                    &&& r is Ok
                    &&& *final(self) == if command == PlayerCommand::TogglePlayPause {
                        *old(self)
                    } else {
                        dirty(*old(self))
                    }
                },
                Ok(false) => {
                    &&& r matches Err(e) && e@ == command_rejected_text()
                    &&& *final(self) == *old(self)
                },
                Err(e) => {
                    &&& r == Err::<(), String>(e)
                    &&& *final(self) == invalidated(*old(self))
                },
            },
    {
        match outcome {
            Ok(true) => {
                match command {
                    PlayerCommand::TogglePlayPause => {},
                    _ => {
                        self.mark_metadata_dirty();
                    },
                }
                Ok(())
            },
            Ok(false) => Err(String::from_str("QQ 音乐拒绝了当前媒体控制命令")),
            Err(e) => {
                self.invalidate_session();
                Err(e)
            },
        }
    }
}

/// The index of the first QQ Music session among the sessions' application
/// ids.
pub fn find_qq_music_session(sources: &Vec<String>) -> (r: Option<usize>)
    ensures
        match r {
            Some(i) => {
                &&& i < sources@.len()
                &&& qq_music_source(sources@[i as int]@)
                &&& forall|j: int| 0 <= j < i ==> !qq_music_source(#[trigger] sources@[j]@)
            },
            None => forall|j: int| 0 <= j < sources@.len() ==> !qq_music_source(#[trigger] sources@[j]@),
        },
{
    let mut k: usize = 0;
    while k < sources.len()
        invariant
            k <= sources.len(),
            forall|j: int| 0 <= j < k ==> !qq_music_source(#[trigger] sources@[j]@),
        decreases sources.len() - k,
    {
        if is_qq_music_source(sources[k].as_str()) {
            return Some(k);
        }
        k = k + 1;
    }
    None
}

} // verus!
