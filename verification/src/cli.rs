//! The command line, and what the one-shot commands answer.
use vstd::prelude::*;

use crate::config::Config;
use crate::sketchybar::{bar_text, opt_track_view};
use crate::track::{label_spec, Track, TrackView};

verus! {

/// The standard library's owned file-system path, carried through as it is.
#[verifier::external_type_specification]
#[verifier::external_body]
pub struct ExPathBuf(std::path::PathBuf);

/// Now Playing for SketchyBar on macOS.
#[derive(Debug)]
pub struct Cli {
    /// Optional config file.
    pub config: Option<std::path::PathBuf>,
    pub command: Commands,
}

#[derive(Debug)]
pub enum Commands {
    /// Print current track once.
    Get { json: bool },
    /// Print a JSON line per change.
    Stream,
    /// Event-driven loop: trigger SketchyBar only when the track changes.
    Daemon { event: String, set: Option<String> },
    /// Snapshot once and push it into ITEM via `sketchybar --set`.
    Sync { item: String },
    Play,
    Pause,
    Toggle,
    Next,
    Prev,
}

/// The line `get` prints without `--json`: the label, or when idle nothing
/// if output is hidden, else the placeholder text.
pub open spec fn get_text_spec(track: Option<TrackView>, separator: Seq<char>, hide_output: bool) -> Seq<
    char,
> {
    match track {
        Some(t) => label_spec(t, separator),
        None => if hide_output {
            Seq::empty()
        } else {
            "No player available"@
        },
    }
}

/// The text `get` prints for a snapshot without `--json`.
pub fn get_text(track: Option<&Track>, cfg: &Config) -> (res: String)
    ensures
        res@ == get_text_spec(opt_track_view(track), cfg.separator@, cfg.hide_output),
{
    match track {
        Some(t) => t.label(cfg.separator.as_str()),
        None => if cfg.hide_output {
            String::new()
        } else {
            String::from_str("No player available")
        },
    }
}

/// The message of a media control that no client took.
pub open spec fn control_failure_spec(action: Seq<char>) -> Seq<char> {
    action + " failed: no active Now Playing client"@
}

/// The outcome of a media control: `Ok` when a client took it, else the
/// message that says which action failed.
pub fn control(ok: bool, action: &str) -> (res: Result<(), String>)
    ensures
        ok <==> res is Ok,
        res matches Err(msg) ==> msg@ == control_failure_spec(action@),
{
    if ok {
        Ok(())
    } else {
        let mut msg = String::from_str(action);
        msg.append(" failed: no active Now Playing client");
        Err(msg)
    }
}


/// `get` prints the snapshot's label, joined with the configured separator;
/// when nothing plays it prints nothing if output is hidden, else
/// `No player available`.
pub proof fn get_prints_the_label(track: Option<TrackView>, separator: Seq<char>, hide_output: bool)
    ensures
        track matches Some(t) ==> get_text_spec(track, separator, hide_output) == bar_text(
            t.title,
            t.artist,
            separator,
        ),
        track is None && hide_output ==> get_text_spec(track, separator, hide_output).len() == 0,
        track is None && !hide_output ==> get_text_spec(track, separator, hide_output)
            == "No player available"@,
{
}

/// A failed control names its action, then says no client took it.
pub proof fn control_failure_names_the_action(action: Seq<char>)
    ensures
        control_failure_spec(action).subrange(0, action.len() as int) == action,
        control_failure_spec(action).len() == action.len()
            + " failed: no active Now Playing client"@.len(),
{
    assert(control_failure_spec(action).subrange(0, action.len() as int) =~= action);
}

} // verus!
