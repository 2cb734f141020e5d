use scrobcord::lastfm::{
    now_playing_from_response, recent_tracks_from_response, session_from_response, str_less,
    to_hex_lower, token_from_response, LastfmClient, NowPlayingAttr, RawImage, RawTrack,
    RawTrackList, RecentTracksResponse, SignParams,
};

#[test]
fn test_sign_correct_order_and_hash() {
    let client = LastfmClient::new("xxx".to_string(), "yyy".to_string());
    let mut params = SignParams::new();
    params.insert("api_key", "xxx".to_string());
    params.insert("method", "auth.getToken".to_string());

    let sig = client.sign(&params);

    assert_eq!(
        sig,
        format!("{:x}", md5::compute(b"api_keyxxxmethodauth.getTokenyyy"))
    );
}

#[test]
fn test_sign_keys_sorted_lexicographically() {
    let client = LastfmClient::new("mykey".to_string(), "mysecret".to_string());
    let mut params = SignParams::new();
    params.insert("token", "mytoken".to_string());
    params.insert("api_key", "mykey".to_string());
    params.insert("method", "auth.getSession".to_string());

    let sig = client.sign(&params);
    let expected = format!(
        "{:x}",
        md5::compute(b"api_keymykeyauthmethod.getSessiontokenmytokenmysecret")
    );
    let expected_correct = format!(
        "{:x}",
        md5::compute(
            "api_keymykeymethod auth.getSessiontokenmytokenmysecret"
                .replace(' ', "")
                .as_bytes()
        )
    );
    let manually = format!(
        "{:x}",
        md5::compute(
            format!(
                "api_keymykeymethod{}tokenmytokenmysecret",
                "auth.getSession"
            )
            .as_bytes()
        )
    );
    assert_eq!(sig, manually);
    let _ = (expected, expected_correct);
}

#[test]
fn sign_does_not_depend_on_insertion_order() {
    let client = LastfmClient::new("k".to_string(), "s".to_string());
    let mut a = SignParams::new();
    a.insert("method", "m".to_string());
    a.insert("token", "t".to_string());
    a.insert("api_key", "k".to_string());
    let mut b = SignParams::new();
    b.insert("api_key", "k".to_string());
    b.insert("token", "t".to_string());
    b.insert("method", "m".to_string());
    assert_eq!(client.sign(&a), client.sign(&b));
}

#[test]
fn sign_insert_replaces_value() {
    let client = LastfmClient::new("k".to_string(), "secret".to_string());
    let mut p = SignParams::new();
    p.insert("api_key", "first".to_string());
    p.insert("api_key", "second".to_string());
    assert_eq!(p.signed_text("secret"), "api_keysecondsecret");
    assert_eq!(
        client.sign(&p),
        format!("{:x}", md5::compute(b"api_keysecondsecret"))
    );
}

#[test]
fn sign_with_no_params_hashes_secret_alone() {
    let client = LastfmClient::new("k".to_string(), "only".to_string());
    let p = SignParams::new();
    assert_eq!(client.sign(&p), format!("{:x}", md5::compute(b"only")));
}

#[test]
fn sign_with_non_ascii_text_hashes_utf8() {
    let client = LastfmClient::new("k".to_string(), "秘密".to_string());
    let mut p = SignParams::new();
    p.insert("user", "髭男".to_string());
    assert_eq!(
        client.sign(&p),
        format!("{:x}", md5::compute("user髭男秘密".as_bytes()))
    );
}

#[test]
fn hex_is_lower_case_two_digits_per_byte() {
    assert_eq!(to_hex_lower(&[0x00, 0x0f, 0xab, 0xff]), "000fabff");
    assert_eq!(to_hex_lower(&[]), "");
}

#[test]
fn key_order_is_that_of_str() {
    let words = ["", "a", "b", "api_key", "method", "token", "ab", "aB", "é", "z", "日本"];
    for a in words.iter() {
        for b in words.iter() {
            assert_eq!(str_less(a, b), a < b, "{} < {}", a, b);
        }
    }
}

fn pairs(q: &[(String, String)]) -> Vec<(&str, &str)> {
    q.iter().map(|(a, b)| (a.as_str(), b.as_str())).collect()
}

#[test]
fn token_query_is_signed() {
    let client = LastfmClient::new("xxx".to_string(), "yyy".to_string());
    let q = client.token_query();
    let sig = format!("{:x}", md5::compute(b"api_keyxxxmethodauth.getTokenyyy"));
    assert_eq!(
        pairs(&q),
        vec![
            ("method", "auth.getToken"),
            ("api_key", "xxx"),
            ("api_sig", sig.as_str()),
            ("format", "json"),
        ]
    );
}

#[test]
fn session_query_is_signed() {
    let client = LastfmClient::new("mykey".to_string(), "mysecret".to_string());
    let q = client.session_query("mytoken");
    let sig = format!(
        "{:x}",
        md5::compute(b"api_keymykeymethodauth.getSessiontokenmytokenmysecret")
    );
    assert_eq!(
        pairs(&q),
        vec![
            ("method", "auth.getSession"),
            ("api_key", "mykey"),
            ("token", "mytoken"),
            ("api_sig", sig.as_str()),
            ("format", "json"),
        ]
    );
}

#[test]
fn history_queries() {
    let client = LastfmClient::new("key".to_string(), "s".to_string());
    assert_eq!(
        pairs(&client.now_playing_query("alice")),
        vec![
            ("method", "user.getRecentTracks"),
            ("user", "alice"),
            ("api_key", "key"),
            ("limit", "1"),
            ("format", "json"),
        ]
    );
    assert_eq!(
        pairs(&client.recent_tracks_query("alice", 3, 200)),
        vec![
            ("method", "user.getRecentTracks"),
            ("user", "alice"),
            ("api_key", "key"),
            ("page", "3"),
            ("limit", "200"),
            ("format", "json"),
        ]
    );
    assert_eq!(
        client.auth_url("tok"),
        "https://www.last.fm/api/auth/?api_key=key&token=tok"
    );
}

#[test]
fn token_answer() {
    assert_eq!(token_from_response(Some("t1".to_string()), "{}").unwrap(), "t1");
    assert_eq!(
        token_from_response(None, "{\"error\":8}").unwrap_err(),
        "token not found: {\"error\":8}"
    );
}

#[test]
fn session_answer() {
    let s = session_from_response(None, Some("k".to_string()), Some("alice".to_string()), "{}")
        .unwrap();
    assert_eq!(s.key, "k");
    assert_eq!(s.username, "alice");
    assert_eq!(
        session_from_response(
            Some("Unauthorized Token - This token has not been authorised".to_string()),
            Some("k".to_string()),
            None,
            "{}"
        )
        .unwrap_err(),
        "Last.fm error: Unauthorized Token - This token has not been authorised"
    );
    assert_eq!(
        session_from_response(None, None, Some("a".to_string()), "B").unwrap_err(),
        "session key not found: B"
    );
    assert_eq!(
        session_from_response(None, Some("k".to_string()), None, "B").unwrap_err(),
        "session username not found: B"
    );
}

fn img(size: &str, text: &str) -> RawImage {
    RawImage { size: Some(size.to_string()), text: Some(text.to_string()) }
}

fn raw(name: &str, playing: NowPlayingAttr, images: Option<Vec<RawImage>>) -> RawTrack {
    RawTrack {
        nowplaying: playing,
        name: Some(name.to_string()),
        artist: Some("Official髭男dism".to_string()),
        album: Some("Editorial".to_string()),
        images,
        url: Some("https://www.last.fm/music/x".to_string()),
        date_uts: Some("1742600400".to_string()),
    }
}

fn response(tracks: RawTrackList) -> RecentTracksResponse {
    RecentTracksResponse {
        message: None,
        tracks,
        page: Some("1".to_string()),
        per_page: Some("20".to_string()),
        total_pages: Some("523".to_string()),
        total: Some("10451".to_string()),
    }
}

#[test]
fn now_playing_prefers_extralarge_image() {
    let t = raw(
        "Pretender",
        NowPlayingAttr::Text("true".to_string()),
        Some(vec![img("small", "s.png"), img("extralarge", "xl.png"), img("mega", "m.png")]),
    );
    let got = now_playing_from_response(&response(RawTrackList::Many(vec![t])))
        .unwrap()
        .unwrap();
    assert_eq!(got.title, "Pretender");
    assert_eq!(got.artist, "Official髭男dism");
    assert_eq!(got.album, "Editorial");
    assert_eq!(got.album_art_url.as_deref(), Some("xl.png"));
    assert_eq!(got.url.as_deref(), Some("https://www.last.fm/music/x"));
    assert_eq!(got.timestamp, None);
}

#[test]
fn now_playing_falls_back_to_last_image_and_drops_empty() {
    let t = raw(
        "A",
        NowPlayingAttr::Flag(true),
        Some(vec![img("small", "s.png"), img("large", "l.png")]),
    );
    let got = now_playing_from_response(&response(RawTrackList::One(t))).unwrap().unwrap();
    assert_eq!(got.album_art_url.as_deref(), Some("l.png"));
    let mut t2 = raw("B", NowPlayingAttr::Text("true".to_string()), Some(vec![img("extralarge", "")]));
    t2.url = Some(String::new());
    t2.name = None;
    let got2 = now_playing_from_response(&response(RawTrackList::One(t2))).unwrap().unwrap();
    assert_eq!(got2.album_art_url, None);
    assert_eq!(got2.url, None);
    assert_eq!(got2.title, "");
}

#[test]
fn now_playing_none_when_not_playing() {
    let not_playing = raw("A", NowPlayingAttr::Text("false".to_string()), None);
    assert!(now_playing_from_response(&response(RawTrackList::Many(vec![not_playing])))
        .unwrap()
        .is_none());
    let other = raw("A", NowPlayingAttr::Other, None);
    assert!(now_playing_from_response(&response(RawTrackList::One(other))).unwrap().is_none());
    assert!(now_playing_from_response(&response(RawTrackList::Many(vec![])))
        .unwrap()
        .is_none());
    assert!(now_playing_from_response(&response(RawTrackList::Missing)).unwrap().is_none());
}

#[test]
fn now_playing_error_message() {
    let mut r = response(RawTrackList::Missing);
    r.message = Some("User not found".to_string());
    assert_eq!(now_playing_from_response(&r).unwrap_err(), "Last.fm error: User not found");
    assert_eq!(recent_tracks_from_response(&r).unwrap_err(), "Last.fm error: User not found");
}

#[test]
fn recent_tracks_page_is_read() {
    let playing = raw("Pretender", NowPlayingAttr::Text("true".to_string()), None);
    let past = raw("Subtitle", NowPlayingAttr::Other, Some(vec![img("extralarge", "x.png")]));
    let flagged = raw("Flag", NowPlayingAttr::Flag(true), None);
    let page = recent_tracks_from_response(&response(RawTrackList::Many(vec![playing, past, flagged])))
        .unwrap();
    assert_eq!(page.page, 1);
    assert_eq!(page.per_page, 20);
    assert_eq!(page.total_pages, 523);
    assert_eq!(page.total_tracks, 10451);
    assert_eq!(page.tracks.len(), 3);
    assert!(page.tracks[0].now_playing);
    assert_eq!(page.tracks[0].timestamp, None);
    assert!(!page.tracks[1].now_playing);
    assert_eq!(page.tracks[1].timestamp, Some(1742600400));
    assert_eq!(page.tracks[1].album_art_url.as_deref(), Some("x.png"));
    // A boolean flag does not count in the history.
    assert!(!page.tracks[2].now_playing);
    assert_eq!(page.tracks[2].timestamp, Some(1742600400));
}

#[test]
fn recent_tracks_single_object_and_bad_numbers() {
    let mut r = response(RawTrackList::One(raw("Only", NowPlayingAttr::Other, None)));
    r.page = Some("x".to_string());
    r.total = None;
    r.per_page = Some("-1".to_string());
    let page = recent_tracks_from_response(&r).unwrap();
    assert_eq!(page.tracks.len(), 1);
    assert_eq!(page.tracks[0].title, "Only");
    assert_eq!(page.page, 0);
    assert_eq!(page.per_page, 0);
    assert_eq!(page.total_tracks, 0);
    let empty = recent_tracks_from_response(&response(RawTrackList::Missing)).unwrap();
    assert!(empty.tracks.is_empty());
}

#[test]
fn recent_tracks_total_zero_is_an_empty_history() {
    let mut r = response(RawTrackList::One(raw("Stale", NowPlayingAttr::Other, None)));
    r.total = Some("0".to_string());
    r.total_pages = Some("0".to_string());
    let page = recent_tracks_from_response(&r).unwrap();
    assert!(page.tracks.is_empty());
    assert_eq!(page.total_tracks, 0);
    assert_eq!(page.total_pages, 0);
    assert_eq!(page.page, 1);
    assert_eq!(page.per_page, 20);
}

#[test]
fn signature_is_thirty_two_hex_digits() {
    let client = LastfmClient::new("k".to_string(), "s".to_string());
    let mut params = SignParams::new();
    params.insert("method", "user.getInfo".to_string());
    let sig = client.sign(&params);
    assert_eq!(sig.len(), 32);
    assert!(sig.chars().all(|c| c.is_ascii_hexdigit() && !c.is_ascii_uppercase()));
}
