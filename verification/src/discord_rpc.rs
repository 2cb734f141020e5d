//! The Discord IPC protocol, without the I/O: frame encoding and header
//! checks, the text formatting and length rules of Rich Presence fields,
//! the activity that is sent for a track, the client's connection state and
//! nonces, and the state machine that waits for Discord's answer.
//!
//! A frame is an 8-byte header `[op: u32 LE, len: u32 LE]` followed by `len`
//! bytes of JSON.
use vstd::prelude::*;
use crate::models::{Settings, Track, opt_view};
use crate::text::{
    chars_of, decimal, is_ws, parse_u64_spec, replace_all, replace_chars, string_of, trim,
    trim_chars, u64_to_string,
};

verus! {

pub const OP_HANDSHAKE: u32 = 0;
pub const OP_FRAME: u32 = 1;
pub const OP_CLOSE: u32 = 2;
pub const OP_PING: u32 = 3;
pub const OP_PONG: u32 = 4;

/// Frames longer than this are a protocol violation.
pub const MAX_FRAME_LEN: u32 = 65536;

/// Frames read while waiting for an answer before giving up.
pub const MAX_WAIT_FRAMES: u32 = 8;

// ---------------------------------------------------------------------------
// Frames
// ---------------------------------------------------------------------------

/// The four little-endian bytes of `x` (below 2^32).
pub open spec fn le32(x: nat) -> Seq<u8> {
    seq![
        (x % 256) as u8,
        ((x / 256) % 256) as u8,
        ((x / 65536) % 256) as u8,
        ((x / 16777216) % 256) as u8,
    ]
}

/// The number that the four little-endian bytes `b[at..at + 4]` denote.
pub open spec fn le32_value(b: Seq<u8>, at: int) -> nat {
    (b[at] as nat) + 256 * (b[at + 1] as nat) + 65536 * (b[at + 2] as nat) + 16777216 * (b[at
        + 3] as nat)
}

/// A frame with op code `op` and the JSON bytes `payload`. The length field
/// holds the payload's length modulo 2^32, as `as u32` truncates it.
pub open spec fn frame_bytes(op: u32, payload: Seq<u8>) -> Seq<u8> {
    le32(op as nat) + le32(payload.len() % 0x1_0000_0000) + payload
}

fn push_le32(out: &mut Vec<u8>, x: u32)
    ensures
        final(out)@ == old(out)@ + le32(x as nat),
{
    out.push((x % 256) as u8);
    out.push(((x / 256) % 256) as u8);
    out.push(((x / 65536) % 256) as u8);
    out.push(((x / 16777216) % 256) as u8);
    assert(final(out)@ =~= old(out)@ + le32(x as nat));
}

/// The frame that carries `payload` with op code `op`.
pub fn encode_frame(op: u32, payload: &[u8]) -> (r: Vec<u8>)
    ensures
        r@ == frame_bytes(op, payload@),
{
    let mut out: Vec<u8> = Vec::new();
    push_le32(&mut out, op);
    let n: u64 = payload.len() as u64;
    let len: u32 = (n % 0x1_0000_0000) as u32;
    push_le32(&mut out, len);
    let mut i: usize = 0;
    let ghost head = out@;
    while i < payload.len()
        invariant
            i <= payload.len(),
            out@ == head + payload@.take(i as int),
        decreases payload.len() - i,
    {
        out.push(payload[i]);
        assert(payload@.take(i + 1) =~= payload@.take(i as int).push(payload@[i as int]));
        i = i + 1;
    }
    assert(payload@.take(payload.len() as int) =~= payload@);
    out
}

/// Reads a frame header: the op code and the payload length, or
/// `FrameTooLarge` where the length exceeds `MAX_FRAME_LEN`.
pub fn decode_header(h: &[u8; 8]) -> (r: Result<(u32, u32), RpcError>)
    ensures
        r is Ok <==> le32_value(h@, 4) <= MAX_FRAME_LEN,
        r matches Ok((op, len)) ==> op == le32_value(h@, 0) && len == le32_value(h@, 4),
        r matches Err(e) ==> e is FrameTooLarge,
{
    let op: u32 = (h[0] as u32) + 256 * (h[1] as u32) + 65536 * (h[2] as u32) + 16777216 * (
    h[3] as u32);
    let len: u32 = (h[4] as u32) + 256 * (h[5] as u32) + 65536 * (h[6] as u32) + 16777216 * (
    h[7] as u32);
    if len > MAX_FRAME_LEN {
        Err(RpcError::FrameTooLarge)
    } else {
        Ok((op, len))
    }
}

pub proof fn lemma_le32_roundtrip(x: nat)
    requires
        x < 0x1_0000_0000,
    ensures
        le32_value(le32(x), 0) == x,
{
    let b = le32(x);
    assert(b[0] as nat == x % 256);
    assert(b[1] as nat == (x / 256) % 256);
    assert(b[2] as nat == (x / 65536) % 256);
    assert(b[3] as nat == (x / 16777216) % 256);
    assert((x % 256) + 256 * ((x / 256) % 256) + 65536 * ((x / 65536) % 256) + 16777216 * ((x
        / 16777216) % 256) == x) by (nonlinear_arith)
        requires
            x < 0x1_0000_0000,
    ;
}

/// A header read back from an encoded frame gives the op code and the
/// payload length that were written, and is accepted whenever the payload
/// is no longer than `MAX_FRAME_LEN`.
pub proof fn lemma_frame_header_roundtrip(op: u32, payload: Seq<u8>)
    ensures
        le32_value(frame_bytes(op, payload), 0) == op,
        payload.len() < 0x1_0000_0000 ==> le32_value(frame_bytes(op, payload), 4)
            == payload.len(),
        frame_bytes(op, payload).len() == 8 + payload.len(),
        frame_bytes(op, payload).skip(8) == payload,
{
    let f = frame_bytes(op, payload);
    let l = payload.len() % 0x1_0000_0000;
    lemma_le32_roundtrip(op as nat);
    lemma_le32_roundtrip(l);
    assert(f.take(4) =~= le32(op as nat));
    assert(f.subrange(4, 8) =~= le32(l));
    assert(f[0] == le32(op as nat)[0] && f[1] == le32(op as nat)[1] && f[2] == le32(op as nat)[2]
        && f[3] == le32(op as nat)[3]);
    assert(f[4] == le32(l)[0] && f[5] == le32(l)[1] && f[6] == le32(l)[2] && f[7] == le32(l)[3]);
    assert(f.skip(8) =~= payload);
}

// ---------------------------------------------------------------------------
// Errors
// ---------------------------------------------------------------------------

/// Why an RPC operation failed.
#[derive(Debug)]
pub enum RpcError {
    /// No connection to Discord.
    NotConnected,
    /// Neither the settings nor the build provide an application ID.
    NoAppId,
    /// A frame header announced more than `MAX_FRAME_LEN` bytes.
    FrameTooLarge,
    /// Discord closed the connection; the JSON text of its frame.
    Closed(String),
    /// Discord answered the handshake with an error; the JSON text.
    ReadyError(String),
    /// Discord answered a command with an error; the JSON text.
    CommandError(String),
    /// No READY arrived within `MAX_WAIT_FRAMES` frames.
    NoReady,
    /// No answer to a command arrived within `MAX_WAIT_FRAMES` frames.
    NoReply,
    /// An I/O or encoding failure, with its description.
    Io(String),
}

impl RpcError {
    /// The text shown for this error.
    pub open spec fn message_spec(&self) -> Seq<char> {
        match self {
            RpcError::NotConnected => "Discordに接続されていません"@,
            RpcError::NoAppId => "Discord Application ID が設定されていません（ビルトイン ID もありません）"@,
            RpcError::FrameTooLarge => "Discord IPC frame too large"@,
            RpcError::Closed(t) => "Discord が接続を閉じました: "@ + t@,
            RpcError::ReadyError(t) => "Discord READY error: "@ + t@,
            RpcError::CommandError(t) => "Discord RPC error: "@ + t@,
            RpcError::NoReady => "Discord READY 応答を受信できませんでした"@,
            RpcError::NoReply => "Discord RPC 応答を受信できませんでした"@,
            RpcError::Io(t) => t@,
        }
    }

    /// The text shown for this error.
    pub fn message(&self) -> (r: String)
        ensures
            r@ == self.message_spec(),
    {
        match self {
            RpcError::NotConnected => "Discordに接続されていません".to_owned(),
            RpcError::NoAppId => "Discord Application ID が設定されていません（ビルトイン ID もありません）".to_owned(),
            RpcError::FrameTooLarge => "Discord IPC frame too large".to_owned(),
            RpcError::Closed(t) => {
                let mut m = "Discord が接続を閉じました: ".to_owned();
                m.append(t.as_str());
                m
            },
            RpcError::ReadyError(t) => {
                let mut m = "Discord READY error: ".to_owned();
                m.append(t.as_str());
                m
            },
            RpcError::CommandError(t) => {
                let mut m = "Discord RPC error: ".to_owned();
                m.append(t.as_str());
                m
            },
            RpcError::NoReady => "Discord READY 応答を受信できませんでした".to_owned(),
            RpcError::NoReply => "Discord RPC 応答を受信できませんでした".to_owned(),
            RpcError::Io(t) => t.clone(),
        }
    }
}

// ---------------------------------------------------------------------------
// Field formatting
// ---------------------------------------------------------------------------

/// The template with `{track}`, `{artist}` and `{album}` replaced, in that
/// order, by the track's title, artist and album; nothing else is
/// substituted.
pub open spec fn format_spec(template: Seq<char>, track: crate::models::TrackView) -> Seq<char> {
    replace_all(
        replace_all(replace_all(template, "{track}"@, track.title), "{artist}"@, track.artist),
        "{album}"@,
        track.album,
    )
}

/// Fills the placeholders `{track}`, `{artist}` and `{album}` of a display
/// template with the track's fields.
pub fn format_rpc(template: &str, track: &Track) -> (r: String)
    ensures
        r@ == format_spec(template@, track@),
{
    proof {
        reveal_strlit("{track}");
        reveal_strlit("{artist}");
        reveal_strlit("{album}");
    }
    let t = chars_of(template);
    let p1 = chars_of("{track}");
    let v1 = chars_of(track.title.as_str());
    let s1 = replace_chars(&t, &p1, &v1);
    let p2 = chars_of("{artist}");
    let v2 = chars_of(track.artist.as_str());
    let s2 = replace_chars(&s1, &p2, &v2);
    let p3 = chars_of("{album}");
    let v3 = chars_of(track.album.as_str());
    let s3 = replace_chars(&s2, &p3, &v3);
    string_of(&s3)
}

/// Replacing a pattern whose first character does not occur leaves the text
/// as it is.
pub proof fn lemma_replace_absent(s: Seq<char>, pat: Seq<char>, rep: Seq<char>)
    requires
        pat.len() > 0,
        !s.contains(pat[0]),
    ensures
        replace_all(s, pat, rep) == s,
    decreases s.len(),
{
    if s.len() > 0 {
        assert(s[0] != pat[0]);
        assert(!crate::text::has_prefix(s, pat)) by {
            if pat.len() <= s.len() {
                assert(s.take(pat.len() as int)[0] == s[0]);
            }
        }
        assert(!s.drop_first().contains(pat[0])) by {
            if s.drop_first().contains(pat[0]) {
                let k = choose|k: int| 0 <= k < s.drop_first().len() && s.drop_first()[k] == pat[0];
                assert(s[k + 1] == pat[0]);
            }
        }
        lemma_replace_absent(s.drop_first(), pat, rep);
        assert(seq![s[0]] + s.drop_first() =~= s);
    }
}

/// Only placeholders are substituted: a template without `{` is shown as it
/// is, whatever the track.
pub proof fn lemma_format_without_placeholders(template: Seq<char>, track: crate::models::TrackView)
    requires
        !template.contains('{'),
    ensures
        format_spec(template, track) == template,
{
    reveal_strlit("{track}");
    reveal_strlit("{artist}");
    reveal_strlit("{album}");
    lemma_replace_absent(template, "{track}"@, track.title);
    lemma_replace_absent(template, "{artist}"@, track.artist);
    lemma_replace_absent(template, "{album}"@, track.album);
}

/// Replacing a pattern in a text that is exactly the pattern gives the
/// replacement.
proof fn lemma_replace_whole(pat: Seq<char>, rep: Seq<char>)
    requires
        pat.len() > 0,
    ensures
        replace_all(pat, pat, rep) == rep,
{
    let e = Seq::<char>::empty();
    assert(pat.take(pat.len() as int) =~= pat);
    assert(crate::text::has_prefix(pat, pat));
    assert(pat.skip(pat.len() as int) =~= e);
    assert(replace_all(e, pat, rep) == e);
    assert(rep + e =~= rep);
}

/// A text that does not begin with the pattern, and holds its first
/// character nowhere after its own first one, is left as it is.
proof fn lemma_replace_not_at_start(s: Seq<char>, pat: Seq<char>, rep: Seq<char>)
    requires
        pat.len() > 0,
        s.len() > 0,
        !crate::text::has_prefix(s, pat),
        !s.drop_first().contains(pat[0]),
    ensures
        replace_all(s, pat, rep) == s,
{
    lemma_replace_absent(s.drop_first(), pat, rep);
    assert(seq![s[0]] + s.drop_first() =~= s);
}

/// Each placeholder stands for its own field: a template that is just
/// `{track}` shows the title, just `{artist}` the artist, and just `{album}`
/// the album (of a track whose fields hold no `{` themselves).
pub proof fn lemma_placeholders_fill_their_fields(track: crate::models::TrackView)
    requires
        !track.title.contains('{'),
        !track.artist.contains('{'),
        !track.album.contains('{'),
    ensures
        format_spec("{track}"@, track) == track.title,
        format_spec("{artist}"@, track) == track.artist,
        format_spec("{album}"@, track) == track.album,
{
    reveal_strlit("{track}");
    reveal_strlit("{artist}");
    reveal_strlit("{album}");
    let pt = "{track}"@;
    let pa = "{artist}"@;
    let pb = "{album}"@;
    // `{track}`
    lemma_replace_whole(pt, track.title);
    lemma_replace_absent(track.title, pa, track.artist);
    lemma_replace_absent(track.title, pb, track.album);
    // `{artist}`
    assert(pa.take(7)[1] != pt[1]);
    assert(!pa.drop_first().contains('{')) by {
        assert forall|i: int| 0 <= i < pa.drop_first().len() implies pa.drop_first()[i] != '{' by {
            assert(pa.drop_first()[i] == pa[i + 1]);
        }
    }
    lemma_replace_not_at_start(pa, pt, track.title);
    lemma_replace_whole(pa, track.artist);
    lemma_replace_absent(track.artist, pb, track.album);
    // `{album}`
    assert(pb.take(7)[1] != pt[1]);
    assert(!pb.drop_first().contains('{')) by {
        assert forall|i: int| 0 <= i < pb.drop_first().len() implies pb.drop_first()[i] != '{' by {
            assert(pb.drop_first()[i] == pb[i + 1]);
        }
    }
    lemma_replace_not_at_start(pb, pt, track.title);
    lemma_replace_not_at_start(pb, pa, track.artist);
    lemma_replace_whole(pb, track.album);
}

/// A Rich Presence text field: the trimmed text, `None` if nothing is left,
/// padded with a space to the minimum of two characters, or cut to 127
/// characters and `…` above the maximum of 128.
pub open spec fn rpc_str_spec(s: Seq<char>) -> Option<Seq<char>> {
    let t = trim(s);
    if t.len() == 0 {
        None
    } else if t.len() < 2 {
        Some(t.push(' '))
    } else if t.len() > 128 {
        Some(t.take(127).push('…'))
    } else {
        Some(t)
    }
}

/// What a field shows is the trimmed text itself: kept whole where it has
/// 2 to 128 characters, followed by one space where it has one, and its
/// first 127 characters followed by `…` where it is longer; an empty or
/// blank text shows nothing.
pub proof fn lemma_rpc_str_keeps_text(s: Seq<char>)
    ensures
        trim(s).len() == 0 <==> rpc_str_spec(s) is None,
        2 <= trim(s).len() <= 128 ==> rpc_str_spec(s) == Some(trim(s)),
        trim(s).len() == 1 ==> (rpc_str_spec(s) matches Some(r) && r.len() == 2 && r[0] == trim(
            s,
        )[0] && r[1] == ' '),
        trim(s).len() > 128 ==> (rpc_str_spec(s) matches Some(r) && r.len() == 128 && r.take(127)
            == trim(s).take(127) && r[127] == '…'),
{
    let t = trim(s);
    if t.len() > 128 {
        assert(t.take(127).push('…').take(127) =~= t.take(127));
    }
}

/// A URL is shown as its trimmed text, never cut: kept where it has 1 to
/// 512 characters, dropped otherwise.
pub proof fn lemma_rpc_url_keeps_text(s: Seq<char>)
    ensures
        0 < trim(s).len() <= 512 ==> rpc_url_spec(s) == Some(trim(s)),
        !(0 < trim(s).len() <= 512) ==> rpc_url_spec(s) is None,
{
}

/// Makes `s` fit a Rich Presence text field (2 to 128 characters).
pub fn valid_rpc_str(s: &str) -> (r: Option<String>)
    ensures
        opt_view(r) == rpc_str_spec(s@),
{
    let v = chars_of(s);
    let t = trim_chars(&v);
    if t.len() == 0 {
        None
    } else if t.len() < 2 {
        let mut out = string_of(&t);
        crate::text::push_char(&mut out, ' ');
        Some(out)
    } else if t.len() > 128 {
        let mut out = crate::text::string_of_range(&t, 0, 127);
        crate::text::push_char(&mut out, '…');
        assert(t@.subrange(0, 127) =~= t@.take(127));
        Some(out)
    } else {
        Some(string_of(&t))
    }
}

/// Every text that `valid_rpc_str` gives is between 2 and 128 characters
/// long.
pub proof fn lemma_rpc_str_length(s: Seq<char>)
    ensures
        rpc_str_spec(s) matches Some(r) ==> 2 <= r.len() <= 128,
{
}

/// A text that `valid_rpc_str` gives is given back unchanged by it: the
/// rules leave a fitted text as it is.
pub proof fn lemma_rpc_str_idempotent(s: Seq<char>)
    ensures
        rpc_str_spec(s) matches Some(r) ==> rpc_str_spec(r) == Some(r),
{
    let t = trim(s);
    crate::text::lemma_trim_ends(s);
    crate::text::lemma_trim_idempotent(s);
    if t.len() == 1 {
        let r = t.push(' ');
        assert(r[0] == t[0]);
        assert(is_ws(r.last()));
        assert(r.drop_last() =~= t);
        assert(crate::text::trim_start(r) == r);
        assert(crate::text::trim_end(r) == crate::text::trim_end(t));
        crate::text::lemma_trim_fixed(t);
        assert(crate::text::trim_start(t) == t);
        assert(trim(r) == t);
    } else if t.len() > 128 {
        let r = t.take(127).push('…');
        assert(r[0] == t[0]);
        assert(!is_ws(r.last()));
        crate::text::lemma_trim_fixed(r);
    }
}

/// A Rich Presence URL: the trimmed text if it is not empty and has at most
/// 512 characters; a longer URL is dropped rather than cut.
pub open spec fn rpc_url_spec(s: Seq<char>) -> Option<Seq<char>> {
    let t = trim(s);
    if t.len() == 0 || t.len() > 512 {
        None
    } else {
        Some(t)
    }
}

/// A URL that `valid_rpc_url` gives is given back unchanged by it.
pub proof fn lemma_rpc_url_idempotent(s: Seq<char>)
    ensures
        rpc_url_spec(s) matches Some(r) ==> rpc_url_spec(r) == Some(r),
{
    crate::text::lemma_trim_idempotent(s);
}

/// Checks that `s` fits a Rich Presence URL field.
pub fn valid_rpc_url(s: &str) -> (r: Option<String>)
    ensures
        opt_view(r) == rpc_url_spec(s@),
{
    let v = chars_of(s);
    let t = trim_chars(&v);
    if t.len() == 0 || t.len() > 512 {
        None
    } else {
        Some(string_of(&t))
    }
}

// ---------------------------------------------------------------------------
// The activity
// ---------------------------------------------------------------------------

/// The images of an activity.
#[derive(Debug)]
pub struct ActivityAssets {
    pub large_image: String,
    pub large_text: Option<String>,
    pub small_image: String,
    pub small_text: String,
}

/// The link button of an activity.
#[derive(Debug)]
pub struct ActivityButton {
    pub label: String,
    pub url: String,
}

/// The Rich Presence activity for a track; each field is left out of the
/// message when it is `None`.
#[derive(Debug)]
pub struct Activity {
    pub details: Option<String>,
    pub state: Option<String>,
    pub assets: Option<ActivityAssets>,
    /// The `timestamps.start` field, in UNIX seconds.
    pub start: Option<i64>,
    pub button: Option<ActivityButton>,
}

/// Whether `o` holds a non-empty string.
pub open spec fn non_empty(o: Option<Seq<char>>) -> bool {
    o matches Some(s) && s.len() > 0
}

/// The start time shown for `track`: the time it was scrobbled, or `now`
/// for a track that has no scrobble time yet (one playing now).
pub open spec fn start_time(track: crate::models::TrackView, now: i64) -> i64 {
    match track.timestamp {
        Some(t) => t,
        None => now,
    }
}

/// What the activity for `track` holds under `settings`, with `now` as the
/// time the track was found playing.
pub open spec fn activity_matches(
    a: Activity,
    track: crate::models::TrackView,
    settings: crate::models::SettingsView,
    now: i64,
) -> bool {
    &&& opt_view(a.details) == rpc_str_spec(format_spec(settings.rpc_details_format, track))
    &&& opt_view(a.state) == rpc_str_spec(format_spec(settings.rpc_state_format, track))
    &&& (settings.rpc_show_album_art && non_empty(track.album_art_url)) == (a.assets is Some)
    &&& (a.assets matches Some(assets) ==> {
        &&& assets.large_image@ == track.album_art_url->0
        &&& opt_view(assets.large_text) == rpc_str_spec(track.album)
        &&& assets.small_image@ == "lastfm_icon"@
        &&& assets.small_text@ == "Scrobcord"@
    })
    &&& a.start == (if settings.rpc_show_timestamp {
        Some(start_time(track, now))
    } else {
        None
    })
    &&& (settings.rpc_show_lastfm_button && non_empty(track.url) && rpc_url_spec(track.url->0)
        is Some) == (a.button is Some)
    &&& (a.button matches Some(b) ==> {
        &&& b.label@ == "Last.fm で開く"@
        &&& b.url@ == rpc_url_spec(track.url->0)->0
    })
}

/// What each setting switches: without `rpc_show_lastfm_button` there is
/// no button, without `rpc_show_album_art` no images, without
/// `rpc_show_timestamp` no start time, whatever the other settings. A button
/// that is shown reads "Last.fm で開く" and links to the track's own page; the
/// images shown are the track's album art, with the `lastfm_icon` asset as
/// the small one; the start time is the scrobble time where the track has
/// one, else `now`. The two lines are the two formats filled with the track.
pub proof fn lemma_activity_settings(
    a: Activity,
    track: crate::models::TrackView,
    settings: crate::models::SettingsView,
    now: i64,
)
    requires
        activity_matches(a, track, settings, now),
    ensures
        !settings.rpc_show_lastfm_button ==> a.button is None,
        !settings.rpc_show_album_art ==> a.assets is None,
        !settings.rpc_show_timestamp ==> a.start is None,
        a.button matches Some(b) ==> (track.url matches Some(u) && b.url@ == trim(u) && b.label@
            == "Last.fm で開く"@),
        settings.rpc_show_lastfm_button && (track.url matches Some(u) && 0 < trim(u).len() <= 512)
            ==> a.button is Some,
        a.assets matches Some(x) ==> (track.album_art_url matches Some(art) && x.large_image@
            == art && x.small_image@ == "lastfm_icon"@),
        settings.rpc_show_album_art && (track.album_art_url matches Some(art) && art.len() > 0)
            ==> a.assets is Some,
        settings.rpc_show_timestamp ==> (track.timestamp matches Some(t) ==> a.start == Some(t)),
        settings.rpc_show_timestamp && track.timestamp is None ==> a.start == Some(now),
        opt_view(a.details) == rpc_str_spec(format_spec(settings.rpc_details_format, track)),
        opt_view(a.state) == rpc_str_spec(format_spec(settings.rpc_state_format, track)),
{
}

fn non_empty_opt(o: &Option<String>) -> (r: bool)
    ensures
        r == non_empty(opt_view(*o)),
{
    match o {
        Some(s) => {
            let v = chars_of(s.as_str());
            v.len() > 0
        },
        None => false,
    }
}

/// The activity that shows `track` under `settings`. Its start time is the
/// track's scrobble time, or `now` (UNIX seconds, when the track was found
/// playing) for a track that has none.
pub fn build_activity(track: &Track, settings: &Settings, now: i64) -> (a: Activity)
    ensures
        activity_matches(a, track@, settings@, now),
{
    let details = valid_rpc_str(format_rpc(settings.rpc_details_format.as_str(), track).as_str());
    let state = valid_rpc_str(format_rpc(settings.rpc_state_format.as_str(), track).as_str());
    let assets = if settings.rpc_show_album_art && non_empty_opt(&track.album_art_url) {
        match &track.album_art_url {
            Some(url) => Some(
                ActivityAssets {
                    large_image: url.clone(),
                    large_text: valid_rpc_str(track.album.as_str()),
                    small_image: "lastfm_icon".to_owned(),
                    small_text: "Scrobcord".to_owned(),
                },
            ),
            None => None,
        }
    } else {
        None
    };
    let start = if settings.rpc_show_timestamp {
        match track.timestamp {
            Some(t) => Some(t),
            None => Some(now),
        }
    } else {
        None
    };
    let button = if settings.rpc_show_lastfm_button && non_empty_opt(&track.url) {
        match &track.url {
            Some(url) => match valid_rpc_url(url.as_str()) {
                Some(u) => Some(ActivityButton { label: "Last.fm で開く".to_owned(), url: u }),
                None => None,
            },
            None => None,
        }
    } else {
        None
    };
    Activity { details, state, assets, start, button }
}

// ---------------------------------------------------------------------------
// Messages to Discord
// ---------------------------------------------------------------------------

/// A message to Discord; the JSON it becomes is given with each variant.
#[derive(Debug)]
pub enum RpcPayload {
    /// `{"v": 1, "client_id": ..}`, sent with `OP_HANDSHAKE`.
    Handshake { client_id: String },
    /// `{"v": 1, "client_id": ..}`, sent with `OP_CLOSE`.
    Close { client_id: String },
    /// `{"cmd": "SET_ACTIVITY", "args": {"pid": .., "activity": {..}}, "nonce": ..}`,
    /// sent with `OP_FRAME`.
    SetActivity { pid: u32, activity: Activity, nonce: String },
    /// `{"cmd": "SET_ACTIVITY", "args": {"pid": ..}, "nonce": ..}`, sent with
    /// `OP_FRAME`.
    ClearActivity { pid: u32, nonce: String },
    /// `{"nonce": ..}`, sent with `OP_PING`.
    Ping { nonce: String },
}

impl RpcPayload {
    /// The op code of the frame that carries this message.
    pub open spec fn op_spec(&self) -> u32 {
        match self {
            RpcPayload::Handshake { .. } => OP_HANDSHAKE,
            RpcPayload::Close { .. } => OP_CLOSE,
            RpcPayload::SetActivity { .. } => OP_FRAME,
            RpcPayload::ClearActivity { .. } => OP_FRAME,
            RpcPayload::Ping { .. } => OP_PING,
        }
    }

    /// The op code of the frame that carries this message.
    pub fn op(&self) -> (r: u32)
        ensures
            r == self.op_spec(),
    {
        match self {
            RpcPayload::Handshake { .. } => OP_HANDSHAKE,
            RpcPayload::Close { .. } => OP_CLOSE,
            RpcPayload::SetActivity { .. } => OP_FRAME,
            RpcPayload::ClearActivity { .. } => OP_FRAME,
            RpcPayload::Ping { .. } => OP_PING,
        }
    }
}

/// Each message travels in the frame its kind calls for: both forms of the
/// `SET_ACTIVITY` command (showing and clearing) as `OP_FRAME` commands, the
/// handshake as `OP_HANDSHAKE`, the goodbye as `OP_CLOSE` and the ping as
/// `OP_PING`; no other message uses those op codes, and none is a `PONG`.
pub proof fn lemma_payload_op_codes(p: RpcPayload)
    ensures
        (p is SetActivity || p is ClearActivity) <==> p.op_spec() == OP_FRAME,
        p is Handshake <==> p.op_spec() == OP_HANDSHAKE,
        p is Close <==> p.op_spec() == OP_CLOSE,
        p is Ping <==> p.op_spec() == OP_PING,
        p.op_spec() != OP_PONG,
{
}

// ---------------------------------------------------------------------------
// The client
// ---------------------------------------------------------------------------

/// The state of a Discord RPC client: the application ID it identifies as,
/// whether a connection is open, and the last nonce it used. The connection
/// itself is held by the caller, which sends the messages that the methods
/// hand out.
pub struct DiscordRpcClient {
    pub app_id: String,
    connected: bool,
    nonce: u64,
}

pub struct ClientView {
    pub app_id: Seq<char>,
    pub connected: bool,
    pub nonce: u64,
}

impl View for DiscordRpcClient {
    type V = ClientView;

    closed spec fn view(&self) -> ClientView {
        ClientView { app_id: self.app_id@, connected: self.connected, nonce: self.nonce }
    }
}

/// The application ID a connection uses: the configured one, or the built-in
/// one where none is configured; `None` where neither exists.
pub open spec fn effective_app_id(configured: Seq<char>, builtin: Seq<char>) -> Option<Seq<char>> {
    if configured.len() > 0 {
        Some(configured)
    } else if builtin.len() > 0 {
        Some(builtin)
    } else {
        None
    }
}

/// A configured application ID always wins; the built-in one is used only
/// where none is configured; with neither there is none, and an empty ID
/// is never used.
pub proof fn lemma_effective_app_id_choice(configured: Seq<char>, builtin: Seq<char>)
    ensures
        configured.len() > 0 ==> effective_app_id(configured, builtin) == Some(configured),
        configured.len() == 0 && builtin.len() > 0 ==> effective_app_id(configured, builtin)
            == Some(builtin),
        configured.len() == 0 && builtin.len() == 0 ==> effective_app_id(configured, builtin)
            is None,
        effective_app_id(configured, builtin) matches Some(id) ==> id.len() > 0,
{
}

/// The nonce text that follows `n`.
pub open spec fn nonce_text(n: u64) -> Seq<char> {
    decimal((n + 1) as nat)
}

impl DiscordRpcClient {
    /// A client for `app_id`, not connected.
    pub fn new(app_id: String) -> (c: Self)
        ensures
            c@.app_id == app_id@,
            !c@.connected,
            c@.nonce == 0,
    {
        DiscordRpcClient { app_id, connected: false, nonce: 0 }
    }

    /// Whether a connection is open.
    pub fn is_connected(&self) -> (r: bool)
        ensures
            r == self@.connected,
    {
        self.connected
    }

    /// The last nonce used.
    pub fn nonce(&self) -> (r: u64)
        ensures
            r == self@.nonce,
    {
        self.nonce
    }

    /// Sets the application ID that the next connection uses.
    pub fn set_app_id(&mut self, app_id: String)
        ensures
            final(self)@.app_id == app_id@,
            final(self)@.connected == old(self)@.connected,
            final(self)@.nonce == old(self)@.nonce,
    {
        self.app_id = app_id;
    }

    /// Closes the connection, if one is open: returns the close message to
    /// send on it.
    pub fn disconnect(&mut self) -> (r: Option<RpcPayload>)
        ensures
            !final(self)@.connected,
            final(self)@.app_id == old(self)@.app_id,
            final(self)@.nonce == old(self)@.nonce,
            old(self)@.connected == (r is Some),
            r matches Some(p) ==> (p matches RpcPayload::Close { client_id } && client_id@
                == old(self)@.app_id),
            r matches Some(p) ==> p.op_spec() == OP_CLOSE,
    {
        if self.connected {
            self.connected = false;
            Some(RpcPayload::Close { client_id: self.app_id.clone() })
        } else {
            None
        }
    }

    /// Starts a connection. Fails with `NoAppId`, changing nothing, where
    /// neither the configured nor the built-in application ID exists.
    /// Otherwise closes the open connection (the first message, to be sent on
    /// it), takes the effective ID as its own, and returns the handshake to
    /// send on the new connection. The client counts as connected only once
    /// `handshake_completed` is called.
    pub fn begin_connect(&mut self, builtin_app_id: &str) -> (r: Result<
        (Option<RpcPayload>, RpcPayload),
        RpcError,
    >)
        ensures
            effective_app_id(old(self)@.app_id, builtin_app_id@) is None ==> (r matches Err(e)
                && e is NoAppId && final(self)@ == old(self)@),
            effective_app_id(old(self)@.app_id, builtin_app_id@) matches Some(id) ==> (r matches Ok(
                (close, hello),
            ) && {
                &&& final(self)@.app_id == id
                &&& !final(self)@.connected
                &&& final(self)@.nonce == old(self)@.nonce
                &&& old(self)@.connected == (close is Some)
                &&& (close matches Some(p) ==> (p matches RpcPayload::Close { client_id }
                    && client_id@ == old(self)@.app_id))
                &&& (hello matches RpcPayload::Handshake { client_id } && client_id@ == id)
                &&& hello.op_spec() == OP_HANDSHAKE
                &&& (close matches Some(p) ==> p.op_spec() == OP_CLOSE)
            }),
    {
        let configured = chars_of(self.app_id.as_str());
        let builtin = chars_of(builtin_app_id);
        let effective = if configured.len() > 0 {
            self.app_id.clone()
        } else if builtin.len() > 0 {
            builtin_app_id.to_owned()
        } else {
            return Err(RpcError::NoAppId);
        };
        let close = self.disconnect();
        self.app_id = effective.clone();
        Ok((close, RpcPayload::Handshake { client_id: effective }))
    }

    /// Records that Discord answered the handshake with READY.
    pub fn handshake_completed(&mut self)
        ensures
            final(self)@.connected,
            final(self)@.app_id == old(self)@.app_id,
            final(self)@.nonce == old(self)@.nonce,
    {
        self.connected = true;
    }

    /// Takes the next nonce and returns its text.
    fn next_nonce(&mut self) -> (r: String)
        requires
            old(self)@.nonce < u64::MAX,
        ensures
            final(self)@.nonce == old(self)@.nonce + 1,
            final(self)@.app_id == old(self)@.app_id,
            final(self)@.connected == old(self)@.connected,
            r@ == nonce_text(old(self)@.nonce),
    {
        self.nonce = self.nonce + 1;
        u64_to_string(self.nonce)
    }

    /// The message that shows `track` under `settings`, from process `pid`
    /// at time `now`, with a fresh nonce. Fails with `NotConnected`, changing
    /// nothing, where no connection is open.
    pub fn set_activity(&mut self, track: &Track, settings: &Settings, pid: u32, now: i64) -> (r:
        Result<RpcPayload, RpcError>)
        requires
            old(self)@.connected ==> old(self)@.nonce < u64::MAX,
        ensures
            !old(self)@.connected ==> (r matches Err(e) && e is NotConnected && final(self)@
                == old(self)@),
            old(self)@.connected ==> (r matches Ok(p) && {
                &&& final(self)@.nonce == old(self)@.nonce + 1
                &&& final(self)@.app_id == old(self)@.app_id
                &&& final(self)@.connected
                &&& p.op_spec() == OP_FRAME
                &&& (p matches RpcPayload::SetActivity { pid: ppid, activity, nonce } && ppid
                    == pid && nonce@ == nonce_text(old(self)@.nonce) && activity_matches(
                    activity,
                    track@,
                    settings@,
                    now,
                ))
            }),
    {
        if !self.connected {
            return Err(RpcError::NotConnected);
        }
        let activity = build_activity(track, settings, now);
        let nonce = self.next_nonce();
        Ok(RpcPayload::SetActivity { pid, activity, nonce })
    }

    /// The message that clears the activity of process `pid`, with a fresh
    /// nonce. Fails with `NotConnected`, changing nothing, where no
    /// connection is open.
    pub fn clear_activity(&mut self, pid: u32) -> (r: Result<RpcPayload, RpcError>)
        requires
            old(self)@.connected ==> old(self)@.nonce < u64::MAX,
        ensures
            !old(self)@.connected ==> (r matches Err(e) && e is NotConnected && final(self)@
                == old(self)@),
            old(self)@.connected ==> (r matches Ok(p) && {
                &&& final(self)@.nonce == old(self)@.nonce + 1
                &&& final(self)@.app_id == old(self)@.app_id
                &&& final(self)@.connected
                &&& p.op_spec() == OP_FRAME
                &&& (p matches RpcPayload::ClearActivity { pid: ppid, nonce } && ppid == pid
                    && nonce@ == nonce_text(old(self)@.nonce))
            }),
    {
        if !self.connected {
            return Err(RpcError::NotConnected);
        }
        let nonce = self.next_nonce();
        Ok(RpcPayload::ClearActivity { pid, nonce })
    }

    /// The ping message that checks the connection, with a fresh nonce. Fails
    /// with `NotConnected`, changing nothing, where no connection is open.
    pub fn ping(&mut self) -> (r: Result<RpcPayload, RpcError>)
        requires
            old(self)@.connected ==> old(self)@.nonce < u64::MAX,
        ensures
            !old(self)@.connected ==> (r matches Err(e) && e is NotConnected && final(self)@
                == old(self)@),
            old(self)@.connected ==> (r matches Ok(p) && {
                &&& final(self)@.nonce == old(self)@.nonce + 1
                &&& final(self)@.app_id == old(self)@.app_id
                &&& final(self)@.connected
                &&& p.op_spec() == OP_PING
                &&& (p matches RpcPayload::Ping { nonce } && nonce@ == nonce_text(
                    old(self)@.nonce,
                ))
            }),
    {
        if !self.connected {
            return Err(RpcError::NotConnected);
        }
        let nonce = self.next_nonce();
        Ok(RpcPayload::Ping { nonce })
    }
}

/// The nonce sent after `n` commands is the decimal text of `n + 1`: it
/// reads back as the count of commands sent so far.
pub proof fn lemma_nonce_text_counts(n: u64)
    requires
        n < u64::MAX,
    ensures
        parse_u64_spec(nonce_text(n)) == Some((n + 1) as u64),
{
    crate::text::lemma_parse_reads_decimal((n + 1) as nat);
}

/// Distinct nonces have distinct texts, so an answer is matched to the
/// command that it answers: successive commands never share a nonce.
pub proof fn lemma_nonce_texts_distinct(a: u64, b: u64)
    requires
        a < u64::MAX,
        b < u64::MAX,
        a != b,
    ensures
        nonce_text(a) != nonce_text(b),
{
    lemma_decimal_injective((a + 1) as nat, (b + 1) as nat);
}

pub proof fn lemma_decimal_injective(m: nat, n: nat)
    requires
        m != n,
    ensures
        decimal(m) != decimal(n),
    decreases m + n,
{
    if m < 10 && n < 10 {
        assert(decimal(m)[0] != decimal(n)[0]);
    } else if m < 10 {
        lemma_decimal_len(n / 10);
        assert(decimal(n).len() >= 2);
    } else if n < 10 {
        lemma_decimal_len(m / 10);
        assert(decimal(m).len() >= 2);
    } else if decimal(m) == decimal(n) {
        assert(decimal(m).drop_last() =~= decimal(m / 10));
        assert(decimal(n).drop_last() =~= decimal(n / 10));
        assert(decimal(m).last() == decimal(n).last());
        assert(m % 10 == n % 10);
        lemma_decimal_injective(m / 10, n / 10);
    }
}

pub proof fn lemma_decimal_len(n: nat)
    ensures
        decimal(n).len() >= 1,
    decreases n,
{
    if n >= 10 {
        lemma_decimal_len(n / 10);
    }
}

// ---------------------------------------------------------------------------
// Waiting for an answer
// ---------------------------------------------------------------------------

/// What a frame from Discord says, as read from its JSON: the op code, the
/// `cmd`, `evt` and `nonce` members where they are strings, and the JSON text
/// itself.
#[derive(Debug)]
pub struct IpcReply {
    pub op: u32,
    pub cmd: Option<String>,
    pub evt: Option<String>,
    pub nonce: Option<String>,
    pub text: String,
}

/// What an answer is awaited for.
#[derive(Debug)]
pub enum WaitTarget {
    /// The READY dispatch that answers a handshake.
    Ready,
    /// The answer to the command with this nonce.
    Nonce(String),
}

/// The state of a wait for Discord's answer: its target and the number of
/// frames read so far.
pub struct ReplyWait {
    target: WaitTarget,
    frames: u32,
}

/// What to do after a frame: answer a ping with a pong carrying the same
/// JSON, and then stop with `outcome` where it is `Some`.
#[derive(Debug)]
pub struct WaitStep {
    pub pong: bool,
    pub outcome: Option<Result<(), RpcError>>,
}

pub open spec fn is_str(o: Option<String>, s: Seq<char>) -> bool {
    o matches Some(v) && v@ == s
}

fn opt_str_is(o: &Option<String>, s: &str) -> (r: bool)
    ensures
        r == is_str(*o, s@),
{
    match o {
        Some(v) => crate::text::str_eq(v.as_str(), s),
        None => false,
    }
}

impl ReplyWait {
    pub closed spec fn frames_spec(&self) -> u32 {
        self.frames
    }

    pub closed spec fn waits_for_ready(&self) -> bool {
        self.target is Ready
    }

    pub closed spec fn awaited_nonce(&self) -> Seq<char> {
        match &self.target {
            WaitTarget::Nonce(n) => n@,
            WaitTarget::Ready => Seq::empty(),
        }
    }

    /// A wait for the READY dispatch.
    pub fn for_ready() -> (w: Self)
        ensures
            w.waits_for_ready(),
            w.frames_spec() == 0,
    {
        ReplyWait { target: WaitTarget::Ready, frames: 0 }
    }

    /// A wait for the answer to the command with `nonce`.
    pub fn for_nonce(nonce: String) -> (w: Self)
        ensures
            !w.waits_for_ready(),
            w.awaited_nonce() == nonce@,
            w.frames_spec() == 0,
    {
        ReplyWait { target: WaitTarget::Nonce(nonce), frames: 0 }
    }

    /// The number of frames that may still be read.
    pub fn frames_left(&self) -> (r: u32)
        ensures
            r == MAX_WAIT_FRAMES - self.frames_spec(),
    {
        proof {
            use_type_invariant(self);
        }
        MAX_WAIT_FRAMES - self.frames
    }

    #[verifier::type_invariant]
    spec fn inv(&self) -> bool {
        self.frames <= MAX_WAIT_FRAMES
    }

    /// Takes in the next frame. A close frame fails the wait; a ping is
    /// answered with a pong; a frame with `evt` `ERROR` fails it; the READY
    /// dispatch (`cmd` `DISPATCH`, `evt` `READY`), or for a command the
    /// frame with its nonce, ends it successfully. Any other frame is
    /// skipped, and the wait fails once `MAX_WAIT_FRAMES` frames were read
    /// without an end.
    pub fn on_frame(&mut self, reply: &IpcReply) -> (r: WaitStep)
        requires
            old(self).frames_spec() < MAX_WAIT_FRAMES,
        ensures
            final(self).frames_spec() == old(self).frames_spec() + 1,
            final(self).waits_for_ready() == old(self).waits_for_ready(),
            final(self).awaited_nonce() == old(self).awaited_nonce(),
            r.pong == (reply.op == OP_PING),
            ({
                let ready = old(self).waits_for_ready();
                let last = old(self).frames_spec() + 1 == MAX_WAIT_FRAMES;
                let is_error = reply.op == OP_FRAME && is_str(reply.evt, "ERROR"@);
                let done = reply.op == OP_FRAME && if ready {
                    is_str(reply.cmd, "DISPATCH"@) && is_str(reply.evt, "READY"@)
                } else {
                    !is_error && is_str(reply.nonce, old(self).awaited_nonce())
                };
                &&& reply.op == OP_CLOSE ==> (r.outcome matches Some(Err(e)) && (e matches RpcError::Closed(t) && t@ == reply.text@))
                &&& done ==> (r.outcome matches Some(Ok(())))
                &&& (is_error && !done) ==> (r.outcome matches Some(Err(e)) && if ready {
                    e matches RpcError::ReadyError(t) && t@ == reply.text@
                } else {
                    e matches RpcError::CommandError(t) && t@ == reply.text@
                })
                &&& (reply.op != OP_CLOSE && !done && !is_error) ==> (if last {
                    r.outcome matches Some(Err(e)) && if ready {
                        e is NoReady
                    } else {
                        e is NoReply
                    }
                } else {
                    r.outcome is None
                })
            }),
    {
        proof {
            use_type_invariant(&*self);
        }
        self.frames = self.frames + 1;
        let last = self.frames == MAX_WAIT_FRAMES;
        let ready = match &self.target {
            WaitTarget::Ready => true,
            WaitTarget::Nonce(_) => false,
        };
        let pong = reply.op == OP_PING;
        if reply.op == OP_CLOSE {
            return WaitStep { pong, outcome: Some(Err(RpcError::Closed(reply.text.clone()))) };
        }
        if reply.op == OP_FRAME {
            if ready {
                if opt_str_is(&reply.cmd, "DISPATCH") && opt_str_is(&reply.evt, "READY") {
                    return WaitStep { pong, outcome: Some(Ok(())) };
                }
                if opt_str_is(&reply.evt, "ERROR") {
                    return WaitStep {
                        pong,
                        outcome: Some(Err(RpcError::ReadyError(reply.text.clone()))),
                    };
                }
            } else {
                if opt_str_is(&reply.evt, "ERROR") {
                    return WaitStep {
                        pong,
                        outcome: Some(Err(RpcError::CommandError(reply.text.clone()))),
                    };
                }
                let matched = match (&reply.nonce, &self.target) {
                    (Some(n), WaitTarget::Nonce(want)) => crate::text::str_eq(
                        n.as_str(),
                        want.as_str(),
                    ),
                    _ => false,
                };
                if matched {
                    return WaitStep { pong, outcome: Some(Ok(())) };
                }
            }
        }
        if last {
            if ready {
                WaitStep { pong, outcome: Some(Err(RpcError::NoReady)) }
            } else {
                WaitStep { pong, outcome: Some(Err(RpcError::NoReply)) }
            }
        } else {
            WaitStep { pong, outcome: None }
        }
    }
}

} // verus!
