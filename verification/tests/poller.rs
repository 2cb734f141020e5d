use scrobcord::models::Track;
use scrobcord::poller::{
    is_same_track, poll_username, DiscordUpdate, PollState, TickOutcome, UpdateStep,
};
use scrobcord::tray::tray_labels;

fn t(title: &str, artist: &str, album: &str) -> Track {
    Track {
        title: title.to_string(),
        artist: artist.to_string(),
        album: album.to_string(),
        album_art_url: None,
        url: None,
        timestamp: None,
    }
}

#[test]
fn same_track_compares_title_and_artist() {
    let a = t("A", "X", "1");
    let b = t("A", "X", "2");
    let c = t("A", "Y", "1");
    assert!(is_same_track(None, None));
    assert!(is_same_track(Some(&a), Some(&b)));
    assert!(!is_same_track(Some(&a), Some(&c)));
    assert!(!is_same_track(Some(&a), None));
    assert!(!is_same_track(None, Some(&a)));
    assert!(is_same_track(Some(&a), Some(&a)));
}

#[test]
fn poll_user_prefers_configured_name() {
    assert_eq!(poll_username("alice", &Some("bob".to_string())), Some("alice".to_string()));
    assert_eq!(poll_username("", &Some("bob".to_string())), Some("bob".to_string()));
    assert_eq!(poll_username("", &None), None);
    assert_eq!(poll_username("", &Some(String::new())), None);
}

#[test]
fn polls_report_changes_once() {
    let mut st = PollState::new();
    let a = Some(t("A", "X", "1"));
    match st.on_poll(&a) {
        TickOutcome::Update { track_changed } => assert!(track_changed),
        TickOutcome::Wait => panic!(),
    }
    // The same title and artist again: no change.
    match st.on_poll(&Some(t("A", "X", "other album"))) {
        TickOutcome::Update { track_changed } => assert!(!track_changed),
        TickOutcome::Wait => panic!(),
    }
    assert_eq!(st.no_track_ticks(), 0);
    // Nothing playing: with a threshold of one poll the activity is cleared at once.
    match st.on_poll(&None) {
        TickOutcome::Update { track_changed } => assert!(track_changed),
        TickOutcome::Wait => panic!(),
    }
    assert_eq!(st.no_track_ticks(), 1);
    match st.on_poll(&None) {
        TickOutcome::Update { track_changed } => assert!(!track_changed),
        TickOutcome::Wait => panic!(),
    }
    assert_eq!(st.no_track_ticks(), 2);
    match st.on_poll(&a) {
        TickOutcome::Update { track_changed } => assert!(track_changed),
        TickOutcome::Wait => panic!(),
    }
    assert_eq!(st.no_track_ticks(), 0);
}

#[test]
fn first_empty_poll_counts_as_no_change() {
    let mut st = PollState::new();
    match st.on_poll(&None) {
        TickOutcome::Update { track_changed } => assert!(!track_changed),
        TickOutcome::Wait => panic!(),
    }
}

#[test]
fn discord_update_connects_then_shows_track() {
    let (mut u, step) = DiscordUpdate::start(false, true, false);
    assert!(matches!(step, UpdateStep::Connect));
    assert!(matches!(u.after_connect(Ok(())), UpdateStep::SetActivity));
    match u.after_activity(Ok(())) {
        UpdateStep::Finish { disconnect, status } => {
            assert!(!disconnect);
            let s = status.unwrap();
            assert!(s.connected);
            assert!(s.error.is_none());
        }
        _ => panic!(),
    }
}

#[test]
fn discord_update_connect_failure_is_reported() {
    let (mut u, _) = DiscordUpdate::start(false, true, true);
    match u.after_connect(Err("Discordが起動していません".to_string())) {
        UpdateStep::Finish { disconnect, status } => {
            assert!(!disconnect);
            let s = status.unwrap();
            assert!(!s.connected);
            assert_eq!(s.error.as_deref(), Some("Discordが起動していません"));
        }
        _ => panic!(),
    }
}

#[test]
fn discord_update_only_on_change() {
    let (_, step) = DiscordUpdate::start(true, true, false);
    match step {
        UpdateStep::Finish { disconnect, status } => {
            assert!(!disconnect);
            assert!(status.is_none());
        }
        _ => panic!(),
    }
    let (u, step) = DiscordUpdate::start(true, false, true);
    assert!(matches!(step, UpdateStep::ClearActivity));
    match u.after_activity(Err("Broken pipe".to_string())) {
        UpdateStep::Finish { disconnect, status } => {
            assert!(disconnect);
            let s = status.unwrap();
            assert!(!s.connected);
            assert_eq!(s.error.as_deref(), Some("Broken pipe"));
        }
        _ => panic!(),
    }
    let (u, step) = DiscordUpdate::start(true, true, true);
    assert!(matches!(step, UpdateStep::SetActivity));
    match u.after_activity(Ok(())) {
        UpdateStep::Finish { disconnect, status } => {
            assert!(!disconnect);
            assert!(status.is_none());
        }
        _ => panic!(),
    }
}

#[test]
fn tray_labels_by_language() {
    assert_eq!(tray_labels("ja"), ("表示", "停止 / 再開", "終了"));
    assert_eq!(tray_labels("en"), ("Show", "Pause / Resume", "Quit"));
    assert_eq!(tray_labels(""), ("Show", "Pause / Resume", "Quit"));
    assert_eq!(tray_labels("ja-JP"), ("Show", "Pause / Resume", "Quit"));
}

#[test]
fn same_track_is_an_equivalence_on_examples() {
    let ts = [
        None,
        Some(t("A", "X", "1")),
        Some(t("A", "X", "2")),
        Some(t("A", "Y", "1")),
        Some(t("B", "X", "1")),
    ];
    for a in ts.iter() {
        assert!(is_same_track(a.as_ref(), a.as_ref()));
        for b in ts.iter() {
            assert_eq!(
                is_same_track(a.as_ref(), b.as_ref()),
                is_same_track(b.as_ref(), a.as_ref())
            );
            for c in ts.iter() {
                if is_same_track(a.as_ref(), b.as_ref()) && is_same_track(b.as_ref(), c.as_ref()) {
                    assert!(is_same_track(a.as_ref(), c.as_ref()));
                }
            }
        }
    }
}

#[test]
fn discord_switch_off_sends_nothing() {
    for connected in [false, true] {
        for has_track in [false, true] {
            for changed in [false, true] {
                let (_, step) = DiscordUpdate::start_if_enabled(false, connected, has_track, changed);
                match step {
                    UpdateStep::Finish { disconnect, status } => {
                        assert!(!disconnect);
                        assert!(status.is_none());
                    }
                    _ => panic!("no Discord work expected with the switch off"),
                }
            }
        }
    }
}

#[test]
fn discord_switch_on_starts_as_usual() {
    let (_, step) = DiscordUpdate::start_if_enabled(true, false, true, false);
    assert!(matches!(step, UpdateStep::Connect));
    let (_, step) = DiscordUpdate::start_if_enabled(true, true, true, true);
    assert!(matches!(step, UpdateStep::SetActivity));
    let (_, step) = DiscordUpdate::start_if_enabled(true, true, false, true);
    assert!(matches!(step, UpdateStep::ClearActivity));
}
