use scrobcord::discord_rpc::{
    build_activity, decode_header, encode_frame, format_rpc, valid_rpc_str, valid_rpc_url,
    DiscordRpcClient, IpcReply, ReplyWait, RpcError, RpcPayload, OP_CLOSE, OP_FRAME,
    OP_HANDSHAKE, OP_PING,
};
use scrobcord::models::{Settings, Track};

fn track() -> Track {
    Track {
        title: "Pretender".to_string(),
        artist: "Official髭男dism".to_string(),
        album: "Editorial".to_string(),
        album_art_url: Some("https://img/x.png".to_string()),
        url: Some("https://www.last.fm/music/x".to_string()),
        timestamp: None,
    }
}

#[test]
fn frame_layout_and_roundtrip() {
    let payload = b"{\"v\":1}";
    let f = encode_frame(OP_HANDSHAKE, payload);
    assert_eq!(&f[0..4], &0u32.to_le_bytes());
    assert_eq!(&f[4..8], &(payload.len() as u32).to_le_bytes());
    assert_eq!(&f[8..], payload);
    let mut h = [0u8; 8];
    h.copy_from_slice(&f[0..8]);
    let (op, len) = decode_header(&h).unwrap();
    assert_eq!(op, OP_HANDSHAKE);
    assert_eq!(len as usize, payload.len());
    let g = encode_frame(0x0403_0201, &[]);
    assert_eq!(&g[0..8], &[1, 2, 3, 4, 0, 0, 0, 0]);
}

#[test]
fn oversized_frame_is_rejected() {
    let mut h = [0u8; 8];
    h[4..8].copy_from_slice(&65536u32.to_le_bytes());
    assert!(decode_header(&h).is_ok());
    h[4..8].copy_from_slice(&65537u32.to_le_bytes());
    let e = decode_header(&h).unwrap_err();
    assert_eq!(e.message(), "Discord IPC frame too large");
}

#[test]
fn format_fills_placeholders() {
    let t = track();
    assert_eq!(format_rpc("{artist} - {track}", &t), "Official髭男dism - Pretender");
    assert_eq!(format_rpc("{album}", &t), "Editorial");
    assert_eq!(format_rpc("no placeholders", &t), "no placeholders");
    assert_eq!(format_rpc("{unknown} {track}", &t), "{unknown} Pretender");
}

#[test]
fn format_replaces_in_order() {
    let mut t = track();
    t.title = "{artist}".to_string();
    t.artist = "A".to_string();
    assert_eq!(format_rpc("{track}", &t), "A");
}

#[test]
fn rpc_text_is_trimmed_padded_and_cut() {
    assert_eq!(valid_rpc_str(""), None);
    assert_eq!(valid_rpc_str("   "), None);
    assert_eq!(valid_rpc_str(" a "), Some("a ".to_string()));
    assert_eq!(valid_rpc_str(" ab "), Some("ab".to_string()));
    let long: String = std::iter::repeat('あ').take(200).collect();
    let cut = valid_rpc_str(&long).unwrap();
    assert_eq!(cut.chars().count(), 128);
    assert!(cut.ends_with('…'));
    let exact: String = std::iter::repeat('x').take(128).collect();
    assert_eq!(valid_rpc_str(&exact), Some(exact.clone()));
    for s in [" a ", "ab", "xyz   ", long.as_str()] {
        let r = valid_rpc_str(s).unwrap();
        let n = r.chars().count();
        assert!(2 <= n && n <= 128);
        assert_eq!(valid_rpc_str(&r), Some(r.clone()));
    }
}

#[test]
fn rpc_url_is_never_cut() {
    assert_eq!(valid_rpc_url(" https://a "), Some("https://a".to_string()));
    assert_eq!(valid_rpc_url(""), None);
    let long: String = std::iter::repeat('u').take(513).collect();
    assert_eq!(valid_rpc_url(&long), None);
    let ok: String = std::iter::repeat('u').take(512).collect();
    assert_eq!(valid_rpc_url(&ok), Some(ok.clone()));
}

#[test]
fn activity_follows_settings() {
    let t = track();
    let s = Settings::default();
    let a = build_activity(&t, &s, 1000);
    assert_eq!(a.details.as_deref(), Some("Official髭男dism - Pretender"));
    assert_eq!(a.state.as_deref(), Some("Editorial"));
    let assets = a.assets.unwrap();
    assert_eq!(assets.large_image, "https://img/x.png");
    assert_eq!(assets.large_text.as_deref(), Some("Editorial"));
    assert_eq!(assets.small_image, "lastfm_icon");
    assert_eq!(assets.small_text, "Scrobcord");
    assert_eq!(a.start, Some(1000));
    let b = a.button.unwrap();
    assert_eq!(b.label, "Last.fm で開く");
    assert_eq!(b.url, "https://www.last.fm/music/x");

    let mut off = Settings::default();
    off.rpc_show_album_art = false;
    off.rpc_show_timestamp = false;
    off.rpc_show_lastfm_button = false;
    off.rpc_state_format = " ".to_string();
    let a2 = build_activity(&t, &off, 1000);
    assert!(a2.assets.is_none());
    assert!(a2.start.is_none());
    assert!(a2.button.is_none());
    assert!(a2.state.is_none());

    let mut t2 = track();
    t2.album_art_url = Some(String::new());
    t2.url = Some(std::iter::repeat('u').take(600).collect());
    let a3 = build_activity(&t2, &s, 5);
    assert!(a3.assets.is_none());
    assert!(a3.button.is_none());
}

#[test]
fn activity_starts_at_the_scrobble_time() {
    let mut t = track();
    t.timestamp = Some(1_700_000_000);
    let s = Settings::default();
    let a = build_activity(&t, &s, 1_800_000_000);
    assert_eq!(a.start, Some(1_700_000_000));
    let mut off = Settings::default();
    off.rpc_show_timestamp = false;
    assert!(build_activity(&t, &off, 1_800_000_000).start.is_none());
}

#[test]
fn client_needs_an_application_id() {
    let mut c = DiscordRpcClient::new(String::new());
    assert!(matches!(c.begin_connect(""), Err(RpcError::NoAppId)));
    assert_eq!(
        RpcError::NoAppId.message(),
        "Discord Application ID が設定されていません（ビルトイン ID もありません）"
    );
    assert!(!c.is_connected());
    let (close, hello) = c.begin_connect("builtin").unwrap();
    assert!(close.is_none());
    match hello {
        RpcPayload::Handshake { client_id } => assert_eq!(client_id, "builtin"),
        _ => panic!("expected handshake"),
    }
    assert_eq!(c.app_id, "builtin");
}

#[test]
fn client_connect_disconnect_and_nonces() {
    let mut c = DiscordRpcClient::new("123".to_string());
    let t = track();
    let s = Settings::default();
    assert!(matches!(c.set_activity(&t, &s, 7, 0), Err(RpcError::NotConnected)));
    assert!(matches!(c.clear_activity(7), Err(RpcError::NotConnected)));
    assert!(matches!(c.ping(), Err(RpcError::NotConnected)));
    assert_eq!(RpcError::NotConnected.message(), "Discordに接続されていません");
    assert_eq!(c.nonce(), 0);
    let (close, hello) = c.begin_connect("builtin").unwrap();
    assert!(close.is_none());
    assert_eq!(hello.op(), OP_HANDSHAKE);
    match hello {
        RpcPayload::Handshake { client_id } => assert_eq!(client_id, "123"),
        _ => panic!(),
    }
    c.handshake_completed();
    assert!(c.is_connected());
    match c.set_activity(&t, &s, 7, 99).unwrap() {
        RpcPayload::SetActivity { pid, nonce, activity } => {
            assert_eq!(pid, 7);
            assert_eq!(nonce, "1");
            assert_eq!(activity.start, Some(99));
        }
        _ => panic!(),
    }
    match c.clear_activity(7).unwrap() {
        RpcPayload::ClearActivity { nonce, .. } => assert_eq!(nonce, "2"),
        _ => panic!(),
    }
    let p = c.ping().unwrap();
    assert_eq!(p.op(), OP_PING);
    match p {
        RpcPayload::Ping { nonce } => assert_eq!(nonce, "3"),
        _ => panic!(),
    }
    match c.disconnect() {
        Some(RpcPayload::Close { client_id }) => assert_eq!(client_id, "123"),
        _ => panic!(),
    }
    assert!(!c.is_connected());
    assert!(c.disconnect().is_none());
    // Reconnecting closes an open connection first.
    c.begin_connect("").unwrap();
    c.handshake_completed();
    let (close, _) = c.begin_connect("").unwrap();
    assert!(matches!(close, Some(RpcPayload::Close { .. })));
}

fn reply(op: u32, cmd: Option<&str>, evt: Option<&str>, nonce: Option<&str>) -> IpcReply {
    IpcReply {
        op,
        cmd: cmd.map(|s| s.to_string()),
        evt: evt.map(|s| s.to_string()),
        nonce: nonce.map(|s| s.to_string()),
        text: "{\"x\":1}".to_string(),
    }
}

#[test]
fn ready_wait_answers_pings_and_ends_on_ready() {
    let mut w = ReplyWait::for_ready();
    let s1 = w.on_frame(&reply(OP_PING, None, None, None));
    assert!(s1.pong);
    assert!(s1.outcome.is_none());
    let s2 = w.on_frame(&reply(OP_FRAME, Some("DISPATCH"), Some("OTHER"), None));
    assert!(s2.outcome.is_none());
    let s3 = w.on_frame(&reply(OP_FRAME, Some("DISPATCH"), Some("READY"), None));
    assert!(!s3.pong);
    assert!(matches!(s3.outcome, Some(Ok(()))));
}

#[test]
fn ready_wait_errors() {
    let mut w = ReplyWait::for_ready();
    match w.on_frame(&reply(OP_CLOSE, None, None, None)).outcome {
        Some(Err(e)) => assert_eq!(e.message(), "Discord が接続を閉じました: {\"x\":1}"),
        _ => panic!(),
    }
    let mut w2 = ReplyWait::for_ready();
    match w2.on_frame(&reply(OP_FRAME, None, Some("ERROR"), None)).outcome {
        Some(Err(e)) => assert_eq!(e.message(), "Discord READY error: {\"x\":1}"),
        _ => panic!(),
    }
    let mut w3 = ReplyWait::for_ready();
    for i in 0..8 {
        assert_eq!(w3.frames_left(), 8 - i);
        let step = w3.on_frame(&reply(OP_FRAME, None, None, None));
        if i < 7 {
            assert!(step.outcome.is_none());
        } else {
            match step.outcome {
                Some(Err(e)) => {
                    assert_eq!(e.message(), "Discord READY 応答を受信できませんでした")
                }
                _ => panic!(),
            }
        }
    }
}

#[test]
fn command_wait_matches_nonce() {
    let mut w = ReplyWait::for_nonce("5".to_string());
    assert!(w.on_frame(&reply(OP_FRAME, Some("SET_ACTIVITY"), None, Some("4"))).outcome.is_none());
    assert!(w.on_frame(&reply(OP_FRAME, Some("SET_ACTIVITY"), None, None)).outcome.is_none());
    assert!(matches!(
        w.on_frame(&reply(OP_FRAME, Some("SET_ACTIVITY"), None, Some("5"))).outcome,
        Some(Ok(()))
    ));
    let mut w2 = ReplyWait::for_nonce("5".to_string());
    match w2.on_frame(&reply(OP_FRAME, None, Some("ERROR"), Some("5"))).outcome {
        Some(Err(e)) => assert_eq!(e.message(), "Discord RPC error: {\"x\":1}"),
        _ => panic!(),
    }
    let mut w3 = ReplyWait::for_nonce("5".to_string());
    let mut last = None;
    for _ in 0..8 {
        let step = w3.on_frame(&reply(OP_PING, None, None, None));
        assert!(step.pong);
        last = step.outcome;
    }
    match last {
        Some(Err(e)) => assert_eq!(e.message(), "Discord RPC 応答を受信できませんでした"),
        _ => panic!(),
    }
    assert_eq!(RpcError::Io("Broken pipe".to_string()).message(), "Broken pipe");
}

#[test]
fn rpc_url_is_stable() {
    for s in ["  https://www.last.fm/music/x  ", "u"] {
        let r = valid_rpc_url(s).unwrap();
        assert_eq!(valid_rpc_url(&r), Some(r.clone()));
    }
}
