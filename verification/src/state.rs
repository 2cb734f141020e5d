//! The application's state as plain values, and what each command does to
//! it: Last.fm authorisation and logout, the reset of saved data, the
//! authorisation status that is reported, and the checks that commands make
//! before they act. The tasks, locks and clients that accompany this state
//! are the caller's.
use vstd::prelude::*;
use crate::models::{
    AuthStatus, AuthStatusView, DiscordStatus, DiscordStatusView, LastfmSession, Settings,
    SettingsView, Track, TrackView, clone_opt, default_settings, opt_track_view, opt_view,
};
use crate::text::chars_of;

verus! {

/// How long the background authorisation poll waits for the user, in
/// seconds.
pub const AUTH_POLL_TIMEOUT_SECS: u64 = 300;

/// The pause between two authorisation polls, in seconds.
pub const AUTH_POLL_INTERVAL_SECS: u64 = 3;

/// The state that the commands read and change.
pub struct AppCore {
    pub settings: Settings,
    pub auth_status: AuthStatus,
    pub discord_status: DiscordStatus,
    pub now_playing: Option<Track>,
    /// The token of an authorisation in progress, between `auth.getToken`
    /// and `auth.getSession`.
    pub pending_auth_token: Option<String>,
}

pub struct AppCoreView {
    pub settings: SettingsView,
    pub auth_status: AuthStatusView,
    pub discord_status: DiscordStatusView,
    pub now_playing: Option<TrackView>,
    pub pending_auth_token: Option<Seq<char>>,
}

impl View for AppCore {
    type V = AppCoreView;

    open spec fn view(&self) -> AppCoreView {
        AppCoreView {
            settings: self.settings@,
            auth_status: self.auth_status@,
            discord_status: self.discord_status@,
            now_playing: opt_track_view(self.now_playing),
            pending_auth_token: opt_view(self.pending_auth_token),
        }
    }
}

/// Not authorised, no user.
pub open spec fn signed_out() -> AuthStatusView {
    AuthStatusView { authenticated: false, username: None }
}

/// Not connected, no error.
pub open spec fn discord_idle() -> DiscordStatusView {
    DiscordStatusView { connected: false, error: None }
}

/// The state at start-up and after a reset.
pub open spec fn initial_core() -> AppCoreView {
    AppCoreView {
        settings: default_settings(),
        auth_status: signed_out(),
        discord_status: discord_idle(),
        now_playing: None,
        pending_auth_token: None,
    }
}

/// The state after authorisation completed for `username`: the user is
/// recorded in the settings and the status, and no authorisation is
/// pending.
pub open spec fn authorised(c: AppCoreView, username: Seq<char>) -> AppCoreView {
    AppCoreView {
        settings: SettingsView { lastfm_username: username, ..c.settings },
        auth_status: AuthStatusView { authenticated: true, username: Some(username) },
        pending_auth_token: None,
        ..c
    }
}

/// The state after logout: no user, not authorised, nothing pending.
pub open spec fn logged_out(c: AppCoreView) -> AppCoreView {
    AppCoreView {
        settings: SettingsView { lastfm_username: Seq::empty(), ..c.settings },
        auth_status: signed_out(),
        pending_auth_token: None,
        ..c
    }
}

/// The authorisation status once it is checked against the keychain:
/// without a stored session it is signed out; with one it is authorised,
/// and a missing user name is taken from the settings where they hold one.
pub open spec fn refreshed(c: AppCoreView, has_session: bool) -> AppCoreView {
    if has_session && !c.auth_status.authenticated {
        AppCoreView {
            auth_status: AuthStatusView {
                authenticated: true,
                username: if c.auth_status.username is None && c.settings.lastfm_username.len()
                    > 0 {
                    Some(c.settings.lastfm_username)
                } else {
                    c.auth_status.username
                },
            },
            ..c
        }
    } else if !has_session {
        AppCoreView { auth_status: signed_out(), ..c }
    } else {
        c
    }
}

impl AppCore {
    /// The state at start-up.
    pub fn new() -> (c: Self)
        ensures
            c@ == initial_core(),
    {
        AppCore {
            settings: Settings::default(),
            auth_status: AuthStatus { authenticated: false, username: None },
            discord_status: DiscordStatus { connected: false, error: None },
            now_playing: None,
            pending_auth_token: None,
        }
    }

    /// Records the token of an authorisation that has begun.
    pub fn begin_auth(&mut self, token: String)
        ensures
            final(self)@ == (AppCoreView { pending_auth_token: Some(token@), ..old(self)@ }),
    {
        self.pending_auth_token = Some(token);
    }

    /// Records that the user cancelled an authorisation; the pending token is
    /// dropped where an authorisation poll was running.
    pub fn cancel_auth(&mut self, poll_was_running: bool)
        ensures
            final(self)@ == if poll_was_running {
                AppCoreView { pending_auth_token: None, ..old(self)@ }
            } else {
                old(self)@
            },
    {
        if poll_was_running {
            self.pending_auth_token = None;
        }
    }

    /// The pending token that a manual session request uses; an error asks
    /// the user to log in first where there is none.
    pub fn pending_token(&self) -> (r: Result<String, String>)
        ensures
            self@.pending_auth_token is Some <==> r is Ok,
            r matches Ok(t) ==> t@ == self@.pending_auth_token->0,
            r matches Err(e) ==> e@ == "先に [Last.fm でログイン] をクリックしてください"@,
    {
        match &self.pending_auth_token {
            Some(t) => Ok(t.clone()),
            None => Err("先に [Last.fm でログイン] をクリックしてください".to_owned()),
        }
    }

    /// Completes an authorisation with `session`, and returns the status to
    /// announce.
    pub fn complete_auth(&mut self, session: &LastfmSession) -> (r: AuthStatus)
        ensures
            final(self)@ == authorised(old(self)@, session.username@),
            r@ == final(self)@.auth_status,
    {
        self.settings.lastfm_username = session.username.clone();
        self.auth_status = AuthStatus { authenticated: true, username: Some(session.username.clone()) };
        self.pending_auth_token = None;
        self.auth_status.clone()
    }

    /// Logs out of Last.fm.
    pub fn logout(&mut self)
        ensures
            final(self)@ == logged_out(old(self)@),
    {
        self.pending_auth_token = None;
        self.settings.lastfm_username = String::new();
        self.auth_status = AuthStatus { authenticated: false, username: None };
    }

    /// Forgets everything: the settings return to their defaults and no
    /// user, connection, track or authorisation remains.
    pub fn reset(&mut self)
        ensures
            final(self)@ == (AppCoreView {
                pending_auth_token: None,
                ..initial_core()
            }),
    {
        self.settings = Settings::default();
        self.auth_status = AuthStatus { authenticated: false, username: None };
        self.discord_status = DiscordStatus { connected: false, error: None };
        self.now_playing = None;
        self.pending_auth_token = None;
    }

    /// Checks the authorisation status against whether the keychain holds a
    /// session, and returns it.
    pub fn refresh_auth_status(&mut self, has_session: bool) -> (r: AuthStatus)
        ensures
            final(self)@ == refreshed(old(self)@, has_session),
            r@ == final(self)@.auth_status,
    {
        if has_session && !self.auth_status.authenticated {
            self.auth_status.authenticated = true;
            if self.auth_status.username.is_none() && chars_of(
                self.settings.lastfm_username.as_str(),
            ).len() > 0 {
                self.auth_status.username = Some(self.settings.lastfm_username.clone());
            }
        } else if !has_session {
            self.auth_status.authenticated = false;
            self.auth_status.username = None;
        }
        self.auth_status.clone()
    }

    /// The user whose history is shown; an error where none is set.
    pub fn history_username(&self) -> (r: Result<String, String>)
        ensures
            self@.settings.lastfm_username.len() > 0 <==> r is Ok,
            r matches Ok(u) ==> u@ == self@.settings.lastfm_username,
            r matches Err(e) ==> e@ == "Last.fm ユーザー名が未設定です"@,
    {
        if chars_of(self.settings.lastfm_username.as_str()).len() > 0 {
            Ok(self.settings.lastfm_username.clone())
        } else {
            Err("Last.fm ユーザー名が未設定です".to_owned())
        }
    }

    /// The Discord status to report: whether the client is connected now,
    /// with the last recorded error.
    pub fn discord_status_report(&self, connected: bool) -> (r: DiscordStatus)
        ensures
            r@ == (DiscordStatusView { connected, error: self@.discord_status.error }),
    {
        DiscordStatus { connected, error: clone_opt(&self.discord_status.error) }
    }
}

/// The Discord status after a connection attempt: connected, or not
/// connected with the attempt's error.
pub fn connect_status(result: &Result<(), String>) -> (r: DiscordStatus)
    ensures
        result is Ok ==> r@ == (DiscordStatusView { connected: true, error: None }),
        result matches Err(e) ==> r@ == (DiscordStatusView { connected: false, error: Some(e@) }),
{
    match result {
        Ok(()) => DiscordStatus { connected: true, error: None },
        Err(e) => DiscordStatus { connected: false, error: Some(e.clone()) },
    }
}

/// Checks that an API key was built in before an authorisation starts.
pub fn check_api_key(api_key: &str) -> (r: Result<(), String>)
    ensures
        r is Ok <==> api_key@.len() > 0,
        r matches Err(e) ==> e@
            == "LASTFM_API_KEY がビルド時に埋め込まれていません。環境変数を設定して再ビルドしてください"@,
{
    if chars_of(api_key).len() > 0 {
        Ok(())
    } else {
        Err(
            "LASTFM_API_KEY がビルド時に埋め込まれていません。環境変数を設定して再ビルドしてください".to_owned(),
        )
    }
}

/// Whether the authorisation poll has waited long enough to give up.
pub fn auth_poll_timed_out(elapsed_secs: u64) -> (r: bool)
    ensures
        r == (elapsed_secs >= AUTH_POLL_TIMEOUT_SECS),
{
    elapsed_secs >= AUTH_POLL_TIMEOUT_SECS
}

// ---------------------------------------------------------------------------
// Laws
// ---------------------------------------------------------------------------

/// After an authorisation completes, checking the status against a keychain
/// that holds the session keeps the user authorised under the same name.
pub proof fn lemma_authorised_survives_refresh(c: AppCoreView, username: Seq<char>)
    ensures
        refreshed(authorised(c, username), true) == authorised(c, username),
        refreshed(authorised(c, username), true).auth_status == (AuthStatusView {
            authenticated: true,
            username: Some(username),
        }),
{
}

/// Without a stored session the reported status is always signed out.
pub proof fn lemma_no_session_signed_out(c: AppCoreView)
    ensures
        refreshed(c, false).auth_status == signed_out(),
{
}

/// Checking the status twice gives what checking once gives.
pub proof fn lemma_refresh_idempotent(c: AppCoreView, has_session: bool)
    ensures
        refreshed(refreshed(c, has_session), has_session) == refreshed(c, has_session),
{
}

/// After logout (which also deletes the stored session), the user is signed
/// out, with no user name in the settings and nothing pending, and stays so
/// when the status is checked.
pub proof fn lemma_logout_signed_out(c: AppCoreView)
    ensures
        logged_out(c).auth_status == signed_out(),
        logged_out(c).settings.lastfm_username.len() == 0,
        logged_out(c).pending_auth_token is None,
        refreshed(logged_out(c), false) == logged_out(c),
{
}

/// Logging in again after a logout authorises the new user.
pub proof fn lemma_login_after_logout(c: AppCoreView, username: Seq<char>)
    ensures
        authorised(logged_out(c), username).auth_status == (AuthStatusView {
            authenticated: true,
            username: Some(username),
        }),
        authorised(logged_out(c), username).settings.lastfm_username == username,
{
}

} // verus!
