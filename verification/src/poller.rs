//! The decisions of the polling loop: which user to poll, when a track
//! counts as changed, when the activity is cleared, and how a Discord
//! update proceeds through connecting and sending. The loop itself, its
//! timing and its I/O are the caller's.
use vstd::prelude::*;
use crate::models::{
    DiscordStatus, Track, TrackView, clone_opt_track, opt_track_view, opt_view,
};
use crate::text::chars_of;

verus! {

/// How many polls in a row must find nothing playing before the activity
/// is cleared.
pub const CLEAR_THRESHOLD: u32 = 1;

// ---------------------------------------------------------------------------
// Same track
// ---------------------------------------------------------------------------

/// Two polls found the same track: both nothing, or tracks with the same
/// title and artist.
pub open spec fn same_track(a: Option<TrackView>, b: Option<TrackView>) -> bool {
    match (a, b) {
        (None, None) => true,
        (Some(x), Some(y)) => x.title == y.title && x.artist == y.artist,
        _ => false,
    }
}

/// Whether two polls found the same track.
pub fn is_same_track(a: Option<&Track>, b: Option<&Track>) -> (r: bool)
    ensures
        r == same_track(
            match a {
                Some(t) => Some(t@),
                None => None,
            },
            match b {
                Some(t) => Some(t@),
                None => None,
            },
        ),
{
    match (a, b) {
        (None, None) => true,
        (Some(x), Some(y)) => x.title == y.title && x.artist == y.artist,
        _ => false,
    }
}

/// Being the same track is an equivalence: reflexive, symmetric and
/// transitive.
pub proof fn lemma_same_track_equivalence(
    a: Option<TrackView>,
    b: Option<TrackView>,
    c: Option<TrackView>,
)
    ensures
        same_track(a, a),
        same_track(a, b) == same_track(b, a),
        same_track(a, b) && same_track(b, c) ==> same_track(a, c),
{
}

/// A track counts as the same only by its title and artist: two found
/// tracks are the same exactly when both their titles and their artists
/// are equal (whatever the album, art, URL or time), and a track found
/// after nothing, or nothing after a track, is always a change.
pub proof fn lemma_same_track_by_title_and_artist(x: TrackView, y: TrackView)
    ensures
        same_track(Some(x), Some(y)) ==> x.title == y.title && x.artist == y.artist,
        x.title == y.title && x.artist == y.artist ==> same_track(Some(x), Some(y)),
        x.title != y.title ==> !same_track(Some(x), Some(y)),
        x.artist != y.artist ==> !same_track(Some(x), Some(y)),
        !same_track(None, Some(x)),
        !same_track(Some(x), None),
        same_track(None, None),
{
}

/// The next song (another title) reported after a track is a change, and
/// the poll that finds it records it as the track shown.
pub proof fn lemma_new_title_is_a_change(prev: TrackView, next: TrackView)
    requires
        prev.title != next.title,
    ensures
        !same_track(Some(prev), Some(next)),
{
}

// ---------------------------------------------------------------------------
// The user to poll
// ---------------------------------------------------------------------------

/// The user whose track is polled: the configured name, or else the name of
/// the authorised session; `None` (the poll is skipped) where both are empty.
pub open spec fn poll_user(configured: Seq<char>, authorised: Option<Seq<char>>) -> Option<
    Seq<char>,
> {
    let name = if configured.len() > 0 {
        configured
    } else {
        match authorised {
            Some(n) => n,
            None => Seq::empty(),
        }
    };
    if name.len() > 0 {
        Some(name)
    } else {
        None
    }
}

/// The configured name always wins; the authorised session's name is used
/// only where none is configured; with neither, no poll is made.
pub proof fn lemma_poll_user_choice(configured: Seq<char>, authorised: Option<Seq<char>>)
    ensures
        configured.len() > 0 ==> poll_user(configured, authorised) == Some(configured),
        configured.len() == 0 ==> (authorised matches Some(n) ==> (n.len() > 0 ==> poll_user(
            configured,
            authorised,
        ) == Some(n))),
        configured.len() == 0 && !(authorised matches Some(n) && n.len() > 0) ==> poll_user(
            configured,
            authorised,
        ) is None,
        poll_user(configured, authorised) matches Some(n) ==> n.len() > 0,
{
}

/// The user whose track is polled, or `None` where no name is known.
pub fn poll_username(configured: &str, authorised: &Option<String>) -> (r: Option<String>)
    ensures
        opt_view(r) == poll_user(configured@, opt_view(*authorised)),
{
    let name: String = if chars_of(configured).len() > 0 {
        configured.to_owned()
    } else {
        match authorised {
            Some(n) => n.clone(),
            None => String::new(),
        }
    };
    if chars_of(name.as_str()).len() > 0 {
        Some(name)
    } else {
        None
    }
}

// ---------------------------------------------------------------------------
// Polls
// ---------------------------------------------------------------------------

/// What follows a poll that found `now_playing`.
#[derive(Debug)]
pub enum TickOutcome {
    /// Nothing is playing, but not for long enough to clear the activity:
    /// nothing more happens in this poll.
    Wait,
    /// Update Discord for the track found; `track_changed` says whether it
    /// differs from the previous poll's (then it is also published as the
    /// track playing now).
    Update { track_changed: bool },
}

/// What the polling loop remembers between polls: the last track it
/// published and how many polls in a row found nothing playing.
pub struct PollState {
    prev_track: Option<Track>,
    no_track_ticks: u32,
}

pub struct PollStateView {
    pub prev_track: Option<TrackView>,
    pub no_track_ticks: u32,
}

impl View for PollState {
    type V = PollStateView;

    closed spec fn view(&self) -> PollStateView {
        PollStateView {
            prev_track: opt_track_view(self.prev_track),
            no_track_ticks: self.no_track_ticks,
        }
    }
}

impl PollState {
    /// The state when polling starts: no track, no empty polls.
    pub fn new() -> (s: Self)
        ensures
            s@.prev_track is None,
            s@.no_track_ticks == 0,
    {
        PollState { prev_track: None, no_track_ticks: 0 }
    }

    /// How many polls in a row found nothing playing.
    pub fn no_track_ticks(&self) -> (r: u32)
        ensures
            r == self@.no_track_ticks,
    {
        self.no_track_ticks
    }

    /// Takes in what a poll found. A track resets the count of empty polls;
    /// nothing playing increments it, and below `CLEAR_THRESHOLD` the poll
    /// ends there. Otherwise the result is compared with the previous one,
    /// which it replaces where it differs.
    pub fn on_poll(&mut self, now_playing: &Option<Track>) -> (r: TickOutcome)
        requires
            now_playing is None ==> old(self)@.no_track_ticks < u32::MAX,
        ensures
            final(self)@.no_track_ticks == (if now_playing is Some {
                0
            } else {
                old(self)@.no_track_ticks + 1
            }),
            now_playing is None && final(self)@.no_track_ticks < CLEAR_THRESHOLD ==> (r is Wait
                && final(self)@.prev_track == old(self)@.prev_track),
            !(now_playing is None && final(self)@.no_track_ticks < CLEAR_THRESHOLD) ==> ({
                let changed = !same_track(old(self)@.prev_track, opt_track_view(*now_playing));
                &&& r matches TickOutcome::Update { track_changed } && track_changed == changed
                &&& final(self)@.prev_track == if changed {
                    opt_track_view(*now_playing)
                } else {
                    old(self)@.prev_track
                }
            }),
    {
        match now_playing {
            Some(_) => {
                self.no_track_ticks = 0;
            },
            None => {
                self.no_track_ticks = self.no_track_ticks + 1;
                if self.no_track_ticks < CLEAR_THRESHOLD {
                    return TickOutcome::Wait;
                }
            },
        }
        let changed = !is_same_track(self.prev_track.as_ref(), now_playing.as_ref());
        if changed {
            self.prev_track = clone_opt_track(now_playing);
        }
        TickOutcome::Update { track_changed: changed }
    }
}

/// A poll that finds the same track as the one before reports no change:
/// after any poll that updates, a poll with the same title and artist does
/// not count as a change.
pub proof fn lemma_repeat_poll_unchanged(
    prev: Option<TrackView>,
    first: Option<TrackView>,
    second: Option<TrackView>,
)
    requires
        same_track(first, second),
    ensures
        ({
            let after = if !same_track(prev, first) {
                first
            } else {
                prev
            };
            same_track(after, second)
        }),
{
    lemma_same_track_equivalence(prev, first, second);
}

// ---------------------------------------------------------------------------
// Updating Discord
// ---------------------------------------------------------------------------

/// The next thing to do in a Discord update.
#[derive(Debug)]
pub enum UpdateStep {
    /// Connect (with the application ID of the settings), then report the
    /// result with `after_connect`.
    Connect,
    /// Show the track, then report the result with `after_activity`.
    SetActivity,
    /// Clear the activity, then report the result with `after_activity`.
    ClearActivity,
    /// Done: disconnect first where `disconnect` is set, then store and
    /// announce `status` where it is `Some`.
    Finish { disconnect: bool, status: Option<DiscordStatus> },
}

/// A Discord update in progress.
pub struct DiscordUpdate {
    has_track: bool,
    track_changed: bool,
    newly_connected: bool,
}

pub open spec fn status_is(s: Option<DiscordStatus>, connected: bool, error: Option<Seq<char>>) -> bool {
    s matches Some(st) && st.connected == connected && opt_view(st.error) == error
}

impl DiscordUpdate {
    pub closed spec fn has_track(&self) -> bool {
        self.has_track
    }

    pub closed spec fn track_changed(&self) -> bool {
        self.track_changed
    }

    /// Whether this update made the connection.
    pub closed spec fn newly_connected(&self) -> bool {
        self.newly_connected
    }

    fn activity_step(&self, newly_connected: bool, status: Option<DiscordStatus>) -> (r: UpdateStep)
        ensures
            (self.track_changed || newly_connected) && self.has_track ==> r is SetActivity,
            (self.track_changed || newly_connected) && !self.has_track ==> r is ClearActivity,
            !(self.track_changed || newly_connected) ==> (r matches UpdateStep::Finish {
                disconnect,
                status: s,
            } && !disconnect && match (s, status) {
                (Some(a), Some(b)) => a@ == b@,
                (None, None) => true,
                _ => false,
            }),
    {
        if self.track_changed || newly_connected {
            if self.has_track {
                UpdateStep::SetActivity
            } else {
                UpdateStep::ClearActivity
            }
        } else {
            UpdateStep::Finish { disconnect: false, status }
        }
    }

    /// Starts an update of Discord for a poll that found a track (or not),
    /// changed (or not), with the client connected (or not). Without a
    /// connection, the first step connects; with one, the activity is sent
    /// only where the track changed.
    pub fn start(connected: bool, has_track: bool, track_changed: bool) -> (r: (Self, UpdateStep))
        ensures
            r.0.has_track() == has_track,
            r.0.track_changed() == track_changed,
            !r.0.newly_connected(),
            !connected ==> r.1 is Connect,
            connected && track_changed && has_track ==> r.1 is SetActivity,
            connected && track_changed && !has_track ==> r.1 is ClearActivity,
            connected && !track_changed ==> (r.1 matches UpdateStep::Finish { disconnect, status }
                && !disconnect && status is None),
    {
        let u = DiscordUpdate { has_track, track_changed, newly_connected: false };
        if !connected {
            (u, UpdateStep::Connect)
        } else {
            let step = u.activity_step(false, None);
            (u, step)
        }
    }

    /// Starts an update of Discord under the user's switch for sending to
    /// Discord. With the switch off the update ends at once: nothing is
    /// connected, sent or cleared, and the stored status stays as it is.
    /// With it on, the update starts as `start` does.
    pub fn start_if_enabled(
        discord_enabled: bool,
        connected: bool,
        has_track: bool,
        track_changed: bool,
    ) -> (r: (Self, UpdateStep))
        ensures
            r.0.has_track() == has_track,
            r.0.track_changed() == track_changed,
            !r.0.newly_connected(),
            !discord_enabled ==> (r.1 matches UpdateStep::Finish { disconnect, status }
                && !disconnect && status is None),
            discord_enabled && !connected ==> r.1 is Connect,
            discord_enabled && connected && track_changed && has_track ==> r.1 is SetActivity,
            discord_enabled && connected && track_changed && !has_track ==> r.1 is ClearActivity,
            discord_enabled && connected && !track_changed ==> (r.1 matches UpdateStep::Finish {
                disconnect,
                status,
            } && !disconnect && status is None),
    {
        if discord_enabled {
            Self::start(connected, has_track, track_changed)
        } else {
            (
                DiscordUpdate { has_track, track_changed, newly_connected: false },
                UpdateStep::Finish { disconnect: false, status: None },
            )
        }
    }

    /// Continues after connecting. A failure ends the update, reporting
    /// Discord as disconnected with the error; a success reports it
    /// connected and sends the activity, as a fresh connection shows none.
    pub fn after_connect(&mut self, result: Result<(), String>) -> (r: UpdateStep)
        ensures
            final(self).has_track() == old(self).has_track(),
            final(self).track_changed() == old(self).track_changed(),
            final(self).newly_connected() == (result is Ok),
            result matches Err(e) ==> (r matches UpdateStep::Finish { disconnect, status }
                && !disconnect && status_is(status, false, Some(e@))),
            result is Ok && old(self).has_track() ==> r is SetActivity,
            result is Ok && !old(self).has_track() ==> r is ClearActivity,
    {
        match result {
            Err(e) => {
                self.newly_connected = false;
                UpdateStep::Finish {
                    disconnect: false,
                    status: Some(DiscordStatus { connected: false, error: Some(e) }),
                }
            },
            Ok(()) => {
                self.newly_connected = true;
                self.activity_step(true, Some(DiscordStatus { connected: true, error: None }))
            },
        }
    }

    /// Ends the update after sending the activity. A failure disconnects and
    /// reports Discord as disconnected with the error; a success reports
    /// the connection where it was made in this update.
    pub fn after_activity(&self, result: Result<(), String>) -> (r: UpdateStep)
        ensures
            result matches Err(e) ==> (r matches UpdateStep::Finish { disconnect, status }
                && disconnect && status_is(status, false, Some(e@))),
            result is Ok && self.newly_connected() ==> (r matches UpdateStep::Finish {
                disconnect,
                status,
            } && !disconnect && status_is(status, true, None)),
            result is Ok && !self.newly_connected() ==> (r matches UpdateStep::Finish {
                disconnect,
                status,
            } && !disconnect && status is None),
    {
        match result {
            Err(e) => UpdateStep::Finish {
                disconnect: true,
                status: Some(DiscordStatus { connected: false, error: Some(e) }),
            },
            Ok(()) => {
                if self.newly_connected {
                    UpdateStep::Finish {
                        disconnect: false,
                        status: Some(DiscordStatus { connected: true, error: None }),
                    }
                } else {
                    UpdateStep::Finish { disconnect: false, status: None }
                }
            },
        }
    }
}

} // verus!
