//! Scrobcord's core: what is shown in Discord Rich Presence for the track
//! that Last.fm reports, and the rules of the protocols, requests and
//! settings around it, with their contracts proved by Verus.
pub mod text;
pub mod models;
pub mod updater;
pub mod tray;
pub mod discord_rpc;
pub mod lastfm;
pub mod poller;
pub mod state;
