//! The data the application passes around: settings, tracks, the history
//! page, connection states, the Last.fm session and update information.
//! Each type has a view over `Seq<char>` that the contracts speak of.
use vstd::prelude::*;

verus! {

/// The view of an optional string.
pub open spec fn opt_view(o: Option<String>) -> Option<Seq<char>> {
    match o {
        Some(s) => Some(s@),
        None => None,
    }
}

/// A copy of an optional string.
pub fn clone_opt(o: &Option<String>) -> (r: Option<String>)
    ensures
        opt_view(r) == opt_view(*o),
{
    match o {
        Some(s) => Some(s.clone()),
        None => None,
    }
}

// ---------------------------------------------------------------------------
// Settings
// ---------------------------------------------------------------------------

/// User settings, persisted between runs.
#[derive(Debug)]
pub struct Settings {
    // Last.fm
    pub lastfm_username: String,
    // Discord RPC
    pub discord_app_id: String,
    pub discord_enabled: bool,
    pub rpc_details_format: String,
    pub rpc_state_format: String,
    pub rpc_name_format: String,
    pub rpc_use_listening_type: bool,
    pub rpc_show_album_art: bool,
    pub rpc_show_timestamp: bool,
    pub rpc_show_lastfm_button: bool,
    // General
    pub poll_interval_secs: u64,
    pub start_on_login: bool,
    /// Hide the window when the app was launched at login.
    pub start_minimized: bool,
    pub minimize_to_tray: bool,
    pub language: String,
}

pub struct SettingsView {
    pub lastfm_username: Seq<char>,
    pub discord_app_id: Seq<char>,
    pub discord_enabled: bool,
    pub rpc_details_format: Seq<char>,
    pub rpc_state_format: Seq<char>,
    pub rpc_name_format: Seq<char>,
    pub rpc_use_listening_type: bool,
    pub rpc_show_album_art: bool,
    pub rpc_show_timestamp: bool,
    pub rpc_show_lastfm_button: bool,
    pub poll_interval_secs: u64,
    pub start_on_login: bool,
    pub start_minimized: bool,
    pub minimize_to_tray: bool,
    pub language: Seq<char>,
}

impl View for Settings {
    type V = SettingsView;

    open spec fn view(&self) -> SettingsView {
        SettingsView {
            lastfm_username: self.lastfm_username@,
            discord_app_id: self.discord_app_id@,
            discord_enabled: self.discord_enabled,
            rpc_details_format: self.rpc_details_format@,
            rpc_state_format: self.rpc_state_format@,
            rpc_name_format: self.rpc_name_format@,
            rpc_use_listening_type: self.rpc_use_listening_type,
            rpc_show_album_art: self.rpc_show_album_art,
            rpc_show_timestamp: self.rpc_show_timestamp,
            rpc_show_lastfm_button: self.rpc_show_lastfm_button,
            poll_interval_secs: self.poll_interval_secs,
            start_on_login: self.start_on_login,
            start_minimized: self.start_minimized,
            minimize_to_tray: self.minimize_to_tray,
            language: self.language@,
        }
    }
}

/// The settings of a fresh installation.
pub open spec fn default_settings() -> SettingsView {
    SettingsView {
        lastfm_username: Seq::empty(),
        discord_app_id: Seq::empty(),
        discord_enabled: true,
        rpc_details_format: "{artist} - {track}"@,
        rpc_state_format: "{album}"@,
        rpc_name_format: "{track}"@,
        rpc_use_listening_type: true,
        rpc_show_album_art: true,
        rpc_show_timestamp: true,
        rpc_show_lastfm_button: true,
        poll_interval_secs: 15,
        start_on_login: false,
        start_minimized: false,
        minimize_to_tray: true,
        language: "ja"@,
    }
}

impl Default for Settings {
    fn default() -> (s: Self)
        ensures
            s@ == default_settings(),
    {
        Settings {
            lastfm_username: String::new(),
            discord_app_id: String::new(),
            discord_enabled: true,
            rpc_details_format: "{artist} - {track}".to_owned(),
            rpc_state_format: "{album}".to_owned(),
            rpc_name_format: "{track}".to_owned(),
            rpc_use_listening_type: true,
            rpc_show_album_art: true,
            rpc_show_timestamp: true,
            rpc_show_lastfm_button: true,
            poll_interval_secs: 15,
            start_on_login: false,
            start_minimized: false,
            minimize_to_tray: true,
            language: "ja".to_owned(),
        }
    }
}

impl Clone for Settings {
    fn clone(&self) -> (s: Self)
        ensures
            s@ == self@,
    {
        Settings {
            lastfm_username: self.lastfm_username.clone(),
            discord_app_id: self.discord_app_id.clone(),
            discord_enabled: self.discord_enabled,
            rpc_details_format: self.rpc_details_format.clone(),
            rpc_state_format: self.rpc_state_format.clone(),
            rpc_name_format: self.rpc_name_format.clone(),
            rpc_use_listening_type: self.rpc_use_listening_type,
            rpc_show_album_art: self.rpc_show_album_art,
            rpc_show_timestamp: self.rpc_show_timestamp,
            rpc_show_lastfm_button: self.rpc_show_lastfm_button,
            poll_interval_secs: self.poll_interval_secs,
            start_on_login: self.start_on_login,
            start_minimized: self.start_minimized,
            minimize_to_tray: self.minimize_to_tray,
            language: self.language.clone(),
        }
    }
}

// ---------------------------------------------------------------------------
// Tracks
// ---------------------------------------------------------------------------

/// The track that is playing now.
#[derive(Debug)]
pub struct Track {
    pub title: String,
    pub artist: String,
    pub album: String,
    pub album_art_url: Option<String>,
    pub url: Option<String>,
    pub timestamp: Option<i64>,
}

pub struct TrackView {
    pub title: Seq<char>,
    pub artist: Seq<char>,
    pub album: Seq<char>,
    pub album_art_url: Option<Seq<char>>,
    pub url: Option<Seq<char>>,
    pub timestamp: Option<i64>,
}

impl View for Track {
    type V = TrackView;

    open spec fn view(&self) -> TrackView {
        TrackView {
            title: self.title@,
            artist: self.artist@,
            album: self.album@,
            album_art_url: opt_view(self.album_art_url),
            url: opt_view(self.url),
            timestamp: self.timestamp,
        }
    }
}

impl Clone for Track {
    fn clone(&self) -> (t: Self)
        ensures
            t@ == self@,
    {
        Track {
            title: self.title.clone(),
            artist: self.artist.clone(),
            album: self.album.clone(),
            album_art_url: clone_opt(&self.album_art_url),
            url: clone_opt(&self.url),
            timestamp: self.timestamp,
        }
    }
}

/// The view of an optional track.
pub open spec fn opt_track_view(o: Option<Track>) -> Option<TrackView> {
    match o {
        Some(t) => Some(t@),
        None => None,
    }
}

/// A copy of an optional track.
pub fn clone_opt_track(o: &Option<Track>) -> (r: Option<Track>)
    ensures
        opt_track_view(r) == opt_track_view(*o),
{
    match o {
        Some(t) => Some(t.clone()),
        None => None,
    }
}

/// One entry of the listening history.
#[derive(Debug)]
pub struct ScrobbledTrack {
    pub title: String,
    pub artist: String,
    pub album: String,
    pub album_art_url: Option<String>,
    pub url: Option<String>,
    /// UNIX seconds; `None` for the track that is playing now.
    pub timestamp: Option<i64>,
    pub now_playing: bool,
}

pub struct ScrobbledTrackView {
    pub title: Seq<char>,
    pub artist: Seq<char>,
    pub album: Seq<char>,
    pub album_art_url: Option<Seq<char>>,
    pub url: Option<Seq<char>>,
    pub timestamp: Option<i64>,
    pub now_playing: bool,
}

impl View for ScrobbledTrack {
    type V = ScrobbledTrackView;

    open spec fn view(&self) -> ScrobbledTrackView {
        ScrobbledTrackView {
            title: self.title@,
            artist: self.artist@,
            album: self.album@,
            album_art_url: opt_view(self.album_art_url),
            url: opt_view(self.url),
            timestamp: self.timestamp,
            now_playing: self.now_playing,
        }
    }
}

/// One page of the listening history.
#[derive(Debug)]
pub struct RecentTracksPage {
    pub tracks: Vec<ScrobbledTrack>,
    pub page: u32,
    pub per_page: u32,
    pub total_pages: u32,
    pub total_tracks: u64,
}

// ---------------------------------------------------------------------------
// Connection states
// ---------------------------------------------------------------------------

/// Whether Last.fm is authorised, and as whom.
#[derive(Debug)]
pub struct AuthStatus {
    pub authenticated: bool,
    pub username: Option<String>,
}

pub struct AuthStatusView {
    pub authenticated: bool,
    pub username: Option<Seq<char>>,
}

impl View for AuthStatus {
    type V = AuthStatusView;

    open spec fn view(&self) -> AuthStatusView {
        AuthStatusView { authenticated: self.authenticated, username: opt_view(self.username) }
    }
}

impl Clone for AuthStatus {
    fn clone(&self) -> (s: Self)
        ensures
            s@ == self@,
    {
        AuthStatus { authenticated: self.authenticated, username: clone_opt(&self.username) }
    }
}

/// Whether Discord is connected, and the last connection error.
#[derive(Debug)]
pub struct DiscordStatus {
    pub connected: bool,
    pub error: Option<String>,
}

pub struct DiscordStatusView {
    pub connected: bool,
    pub error: Option<Seq<char>>,
}

impl View for DiscordStatus {
    type V = DiscordStatusView;

    open spec fn view(&self) -> DiscordStatusView {
        DiscordStatusView { connected: self.connected, error: opt_view(self.error) }
    }
}

impl Clone for DiscordStatus {
    fn clone(&self) -> (s: Self)
        ensures
            s@ == self@,
    {
        DiscordStatus { connected: self.connected, error: clone_opt(&self.error) }
    }
}

// ---------------------------------------------------------------------------
// Last.fm session and update information
// ---------------------------------------------------------------------------

/// A Last.fm web-service session.
#[derive(Debug)]
pub struct LastfmSession {
    pub key: String,
    pub username: String,
}

/// The outcome of an update check.
#[derive(Debug)]
pub struct UpdateInfo {
    pub available: bool,
    pub latest_version: String,
    pub current_version: String,
    pub release_url: String,
}

} // verus!
