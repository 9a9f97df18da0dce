//! Turning what the system reports about the Now Playing client into a
//! [`Track`].
use vstd::prelude::*;

use crate::config::opt_string_view;
use crate::text::{split_whitespace_spec, split_words, str_eq, str_trim, string_views, trim_seq};
use crate::track::{from_parts_spec, Track, TrackView};

verus! {

/// The fields of one Now Playing report that the snapshot is built from.
/// `rate_positive` says whether the playback rate is above zero, when the
/// report has a rate.
#[derive(Debug, Clone)]
pub struct MediaInfo {
    pub title: Option<String>,
    pub artist: Option<String>,
    pub album: Option<String>,
    pub bundle_id: Option<String>,
    pub is_playing: Option<bool>,
    pub rate_positive: Option<bool>,
}

/// Whether the report counts as playing: its playing flag when it has one,
/// else whether the rate is positive, else not playing.
pub open spec fn playing_spec(is_playing: Option<bool>, rate_positive: Option<bool>) -> bool {
    match is_playing {
        Some(p) => p,
        None => match rate_positive {
            Some(r) => r,
            None => false,
        },
    }
}

/// The snapshot a report gives, if any.
pub open spec fn track_from_info_spec(info: Option<MediaInfo>) -> Option<TrackView> {
    match info {
        Some(i) => from_parts_spec(
            opt_string_view(i.title),
            opt_string_view(i.artist),
            opt_string_view(i.album),
            opt_string_view(i.bundle_id),
            playing_spec(i.is_playing, i.rate_positive),
        ),
        None => None,
    }
}

fn as_str_opt(s: &Option<String>) -> (res: Option<&str>)
    ensures
        match (res, s) {
            (Some(r), Some(t)) => r@ == t@,
            (None, None) => true,
            _ => false,
        },
{
    match s {
        Some(t) => Some(t.as_str()),
        None => None,
    }
}

/// The snapshot for a report; none without a report or without a title.
pub fn track_from_guard(info: Option<&MediaInfo>) -> (res: Option<Track>)
    ensures
        match (res, track_from_info_spec(
            match info {
                Some(i) => Some(*i),
                None => None,
            },
        )) {
            (Some(t), Some(v)) => t@ == v,
            (None, None) => true,
            _ => false,
        },
{
    let info = match info {
        Some(i) => i,
        None => {
            return None;
        },
    };
    let playing = match info.is_playing {
        Some(p) => p,
        None => match info.rate_positive {
            Some(r) => r,
            None => false,
        },
    };
    Track::from_parts(
        as_str_opt(&info.title),
        as_str_opt(&info.artist),
        as_str_opt(&info.album),
        as_str_opt(&info.bundle_id),
        playing,
    )
}


/// The pids of the adapter helpers, from the output of `pgrep`: its
/// white-space separated words.
pub fn adapter_pids(pgrep_output: &str) -> (pids: Vec<String>)
    ensures
        string_views(pids@) == split_whitespace_spec(pgrep_output@),
{
    split_words(pgrep_output)
}

/// Whether a helper is a child of this process: the parent pid that
/// `ps -o ppid=` printed for it, trimmed, is our pid written in decimal.
/// Only such helpers are reaped.
pub fn is_own_adapter_child(ppid_output: &str, me: &str) -> (res: bool)
    ensures
        res == (trim_seq(ppid_output@) == me@),
{
    str_eq(str_trim(ppid_output), me)
}

} // verus!
