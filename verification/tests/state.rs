use scrobcord::models::LastfmSession;
use scrobcord::state::{auth_poll_timed_out, check_api_key, connect_status, AppCore};

fn session(name: &str) -> LastfmSession {
    LastfmSession { key: "k".to_string(), username: name.to_string() }
}

#[test]
fn login_records_user_and_clears_pending_token() {
    let mut core = AppCore::new();
    core.begin_auth("tok".to_string());
    assert_eq!(core.pending_token().unwrap(), "tok");
    let st = core.complete_auth(&session("alice"));
    assert!(st.authenticated);
    assert_eq!(st.username.as_deref(), Some("alice"));
    assert_eq!(core.settings.lastfm_username, "alice");
    assert!(core.pending_auth_token.is_none());
    // With the session in the keychain the status stays.
    let again = core.refresh_auth_status(true);
    assert!(again.authenticated);
    assert_eq!(again.username.as_deref(), Some("alice"));
}

#[test]
fn pending_token_required_for_manual_session() {
    let core = AppCore::new();
    assert_eq!(
        core.pending_token().unwrap_err(),
        "先に [Last.fm でログイン] をクリックしてください"
    );
}

#[test]
fn logout_signs_out() {
    let mut core = AppCore::new();
    core.complete_auth(&session("alice"));
    core.begin_auth("tok".to_string());
    core.logout();
    assert!(!core.auth_status.authenticated);
    assert!(core.auth_status.username.is_none());
    assert_eq!(core.settings.lastfm_username, "");
    assert!(core.pending_auth_token.is_none());
    let st = core.refresh_auth_status(false);
    assert!(!st.authenticated);
    assert_eq!(
        core.history_username().unwrap_err(),
        "Last.fm ユーザー名が未設定です"
    );
}

#[test]
fn refresh_takes_name_from_settings() {
    let mut core = AppCore::new();
    core.settings.lastfm_username = "bob".to_string();
    let st = core.refresh_auth_status(true);
    assert!(st.authenticated);
    assert_eq!(st.username.as_deref(), Some("bob"));
    assert_eq!(core.history_username().unwrap(), "bob");
    let mut empty = AppCore::new();
    let st2 = empty.refresh_auth_status(true);
    assert!(st2.authenticated);
    assert!(st2.username.is_none());
    let st3 = empty.refresh_auth_status(false);
    assert!(!st3.authenticated);
}

#[test]
fn cancel_auth_drops_token_only_while_polling() {
    let mut core = AppCore::new();
    core.begin_auth("tok".to_string());
    core.cancel_auth(false);
    assert!(core.pending_auth_token.is_some());
    core.cancel_auth(true);
    assert!(core.pending_auth_token.is_none());
}

#[test]
fn reset_forgets_everything() {
    let mut core = AppCore::new();
    core.complete_auth(&session("alice"));
    core.discord_status.connected = true;
    core.discord_status.error = Some("e".to_string());
    core.begin_auth("t".to_string());
    core.reset();
    assert!(!core.auth_status.authenticated);
    assert!(!core.discord_status.connected);
    assert!(core.discord_status.error.is_none());
    assert!(core.now_playing.is_none());
    assert!(core.pending_auth_token.is_none());
    assert_eq!(core.settings.lastfm_username, "");
}

#[test]
fn discord_status_report_keeps_error() {
    let mut core = AppCore::new();
    core.discord_status.error = Some("no pipe".to_string());
    let st = core.discord_status_report(true);
    assert!(st.connected);
    assert_eq!(st.error.as_deref(), Some("no pipe"));
}

#[test]
fn api_key_check_and_poll_timeout() {
    assert!(check_api_key("abc").is_ok());
    assert_eq!(
        check_api_key("").unwrap_err(),
        "LASTFM_API_KEY がビルド時に埋め込まれていません。環境変数を設定して再ビルドしてください"
    );
    assert!(!auth_poll_timed_out(299));
    assert!(auth_poll_timed_out(300));
}

#[test]
fn connect_status_reflects_result() {
    let ok = connect_status(&Ok(()));
    assert!(ok.connected);
    assert!(ok.error.is_none());
    let err = connect_status(&Err("Discordが起動していません".to_string()));
    assert!(!err.connected);
    assert_eq!(err.error.as_deref(), Some("Discordが起動していません"));
}

#[test]
fn refresh_twice_is_refresh_once() {
    for has_session in [true, false] {
        let mut core = AppCore::new();
        core.settings.lastfm_username = "carol".to_string();
        let first = core.refresh_auth_status(has_session);
        let second = core.refresh_auth_status(has_session);
        assert_eq!(first.authenticated, second.authenticated);
        assert_eq!(first.username, second.username);
    }
}

#[test]
fn login_after_logout_authorises_new_user() {
    let mut core = AppCore::new();
    core.complete_auth(&session("alice"));
    core.logout();
    let st = core.complete_auth(&session("dave"));
    assert!(st.authenticated);
    assert_eq!(st.username.as_deref(), Some("dave"));
    assert_eq!(core.settings.lastfm_username, "dave");
}
