use scrobcord::models::Settings;
use scrobcord::state::AppCore;

#[test]
fn settings_default_values() {
    let s = Settings::default();
    assert_eq!(s.poll_interval_secs, 15);
    assert!(s.discord_enabled);
    assert!(s.rpc_show_album_art);
    assert!(s.rpc_show_timestamp);
    assert!(s.rpc_show_lastfm_button);
    assert_eq!(s.language, "ja");
}

#[test]
fn settings_default_formats_and_flags() {
    let s = Settings::default();
    assert_eq!(s.lastfm_username, "");
    assert_eq!(s.discord_app_id, "");
    assert_eq!(s.rpc_details_format, "{artist} - {track}");
    assert_eq!(s.rpc_state_format, "{album}");
    assert_eq!(s.rpc_name_format, "{track}");
    assert!(s.rpc_use_listening_type);
    assert!(!s.start_on_login);
    assert!(!s.start_minimized);
    assert!(s.minimize_to_tray);
}

#[test]
fn settings_clone_keeps_fields() {
    let mut s = Settings::default();
    s.lastfm_username = "user123".to_string();
    s.poll_interval_secs = 30;
    s.language = "en".to_string();
    let c = s.clone();
    assert_eq!(c.lastfm_username, "user123");
    assert_eq!(c.poll_interval_secs, 30);
    assert_eq!(c.language, "en");
}

#[test]
fn reset_restores_default_settings() {
    let mut core = AppCore::new();
    core.settings.language = "en".to_string();
    core.settings.poll_interval_secs = 60;
    core.reset();
    assert_eq!(core.settings.language, "ja");
    assert_eq!(core.settings.poll_interval_secs, 15);
}
