//! The argument lists handed to the `sketchybar` binary. Every value goes
//! in an argument of its own, so nothing in a track can change the
//! command's shape.
use vstd::prelude::*;

use crate::config::{Config, ConfigView};
use crate::icons::{
    icon_for_with_overrides, icon_with_overrides_spec, toggle_icon, toggle_icon_spec, ICON_NEXT,
    ICON_PREV,
};
use crate::text::{ends_with_seq, str_ends_with, str_eq, string_views};
use crate::track::{label_spec, placeholder_spec, Track, TrackView};
use crate::icons::{ICON_PAUSE, ICON_PLAY};

verus! {

/// Name suffixes of the control items that sit beside the main item.
pub const CONTROL_SUFFIXES: [&'static str; 4] = [".sep", ".prev", ".toggle", ".next"];

/// [`CONTROL_SUFFIXES`] as character sequences.
pub open spec fn control_suffixes() -> Seq<Seq<char>> {
    seq![".sep"@, ".prev"@, ".toggle"@, ".next"@]
}

/// The first control suffix, at index `from` or later, that `item` ends with.
pub open spec fn control_from(item: Seq<char>, from: nat) -> Option<Seq<char>>
    decreases control_suffixes().len() - from,
{
    if from >= control_suffixes().len() {
        None
    } else if ends_with_seq(item, control_suffixes()[from as int]) {
        Some(control_suffixes()[from as int])
    } else {
        control_from(item, from + 1)
    }
}

/// The control kind an item name denotes, if it ends with a control suffix.
pub open spec fn control_of_spec(item: Seq<char>) -> Option<Seq<char>> {
    control_from(item, 0)
}

/// The glyph shown for a player: the fixed glyph when one is configured
/// (an empty one counts as unset), else the override or built-in choice.
pub open spec fn resolve_icon_spec(cfg: ConfigView, bundle_id: Seq<char>) -> Seq<char> {
    match cfg.static_icon {
        Some(glyph) if glyph.len() > 0 => glyph,
        _ => icon_with_overrides_spec(cfg.icon_overrides, bundle_id),
    }
}

/// The track that is rendered: the snapshot, or the placeholder when idle.
pub open spec fn shown(track: Option<TrackView>) -> TrackView {
    match track {
        Some(t) => t,
        None => placeholder_spec(),
    }
}

/// The view of an optional borrowed track.
pub open spec fn opt_track_view(track: Option<&Track>) -> Option<TrackView> {
    match track {
        Some(t) => Some(t@),
        None => None,
    }
}

/// How a boolean is printed.
pub open spec fn bool_text(b: bool) -> Seq<char> {
    if b {
        "true"@
    } else {
        "false"@
    }
}

/// The arguments of `sketchybar --trigger EVENT KEY=VALUE...`.
pub open spec fn trigger_args_spec(
    event: Seq<char>,
    track: Option<TrackView>,
    cfg: ConfigView,
) -> Seq<Seq<char>> {
    let t = shown(track);
    seq![
        "--trigger"@,
        event,
        "TITLE="@ + t.title,
        "ARTIST="@ + t.artist,
        "ALBUM="@ + t.album,
        "BUNDLE="@ + t.bundle_id,
        "PLAYING="@ + bool_text(t.playing),
        "LABEL="@ + label_spec(t, cfg.separator),
        "ICON="@ + resolve_icon_spec(cfg, t.bundle_id),
        "PREV_ICON="@ + ICON_PREV@,
        "TOGGLE_ICON="@ + toggle_icon_spec(t.playing),
        "NEXT_ICON="@ + ICON_NEXT@,
    ]
}

/// The `--set` arguments of one control item of the given kind.
pub open spec fn control_args_spec(
    item: Seq<char>,
    kind: Seq<char>,
    track: Option<TrackView>,
) -> Seq<Seq<char>> {
    let t = shown(track);
    let middle = if kind == ".sep"@ {
        seq!["label=|"@, "icon.drawing=off"@]
    } else {
        let icon = if kind == ".prev"@ {
            ICON_PREV@
        } else if kind == ".next"@ {
            ICON_NEXT@
        } else {
            toggle_icon_spec(t.playing)
        };
        seq!["icon="@ + icon, "label.drawing=off"@]
    };
    seq!["--set"@, item] + middle + seq!["drawing=on"@]
}

/// The `--set` arguments of one item: a control item when its name ends
/// with a control suffix, else the main item with label, icon and
/// scrolling.
pub open spec fn set_args_spec(
    item: Seq<char>,
    track: Option<TrackView>,
    cfg: ConfigView,
) -> Seq<Seq<char>> {
    match control_of_spec(item) {
        Some(kind) => control_args_spec(item, kind, track),
        None => {
            let t = shown(track);
            seq![
                "--set"@,
                item,
                "label="@ + label_spec(t, cfg.separator),
                "icon="@ + resolve_icon_spec(cfg, t.bundle_id),
                if t.playing {
                    "scroll_texts=on"@
                } else {
                    "scroll_texts=off"@
                },
                "drawing=on"@,
            ]
        },
    }
}

/// The name of the main item that `item` belongs to.
pub open spec fn base_item(item: Seq<char>) -> Seq<char> {
    match control_of_spec(item) {
        Some(suffix) => item.subrange(0, item.len() - suffix.len()),
        None => item,
    }
}

/// The `--set` arguments of the first `n` control siblings of `base`.
pub open spec fn siblings_args(base: Seq<char>, track: Option<TrackView>, n: nat) -> Seq<
    Seq<char>,
>
    decreases n,
{
    if n == 0 {
        Seq::empty()
    } else {
        let suffix = control_suffixes()[n - 1];
        siblings_args(base, track, (n - 1) as nat) + control_args_spec(base + suffix, suffix, track)
    }
}

/// The arguments of one `sketchybar` call that updates the main item and
/// all its control siblings.
pub open spec fn set_with_controls_spec(
    item: Seq<char>,
    track: Option<TrackView>,
    cfg: ConfigView,
) -> Seq<Seq<char>> {
    let base = base_item(item);
    set_args_spec(base, track, cfg) + siblings_args(base, track, 4)
}

fn suffix_at(i: usize) -> (s: &'static str)
    requires
        i < 4,
    ensures
        s@ == control_suffixes()[i as int],
{
    assert(CONTROL_SUFFIXES@[i as int]@ == control_suffixes()[i as int]);
    CONTROL_SUFFIXES[i]
}

fn control_of(item: &str) -> (kind: Option<&'static str>)
    ensures
        match kind {
            Some(k) => control_of_spec(item@) == Some(k@) && ends_with_seq(item@, k@),
            None => control_of_spec(item@) is None,
        },
{
    let mut i: usize = 0;
    while i < 4
        invariant
            0 <= i <= 4,
            control_from(item@, 0) == control_from(item@, i as nat),
        decreases 4 - i,
    {
        let suffix = suffix_at(i);
        if str_ends_with(item, suffix) {
            return Some(suffix);
        }
        i = i + 1;
    }
    None
}

fn resolve_icon<'a>(cfg: &'a Config, bundle_id: &str) -> (icon: &'a str)
    ensures
        icon@ == resolve_icon_spec(cfg@, bundle_id@),
{
    match &cfg.static_icon {
        Some(glyph) if !glyph.as_str().is_empty() => glyph.as_str(),
        _ => icon_for_with_overrides(&cfg.icon_overrides, bundle_id),
    }
}

/// `key` followed by `value`, as one argument.
fn kv(key: &str, value: &str) -> (res: String)
    ensures
        res@ == key@ + value@,
{
    let mut s = String::from_str(key);
    s.append(value);
    s
}

fn push_arg(args: &mut Vec<String>, arg: String)
    ensures
        string_views(final(args)@) == string_views(old(args)@).push(arg@),
{
    let ghost before = args@;
    args.push(arg);
    assert(string_views(args@) =~= string_views(before).push(arg@));
}

fn bool_string(b: bool) -> (res: &'static str)
    ensures
        res@ == bool_text(b),
{
    if b {
        "true"
    } else {
        "false"
    }
}

/// Arguments for firing `event` with the snapshot (or the placeholder when
/// idle) as uppercase `KEY=VALUE` pairs.
pub fn trigger_args(event: &str, track: Option<&Track>, cfg: &Config) -> (args: Vec<String>)
    ensures
        string_views(args@) == trigger_args_spec(event@, opt_track_view(track), cfg@),
{
    let placeholder = Track::placeholder();
    let t: &Track = match track {
        Some(t) => t,
        None => &placeholder,
    };
    let label = t.label(cfg.separator.as_str());
    let icon = resolve_icon(cfg, t.bundle_id.as_str());
    let toggle = toggle_icon(t.playing);
    let mut args: Vec<String> = Vec::new();
    push_arg(&mut args, String::from_str("--trigger"));
    push_arg(&mut args, String::from_str(event));
    push_arg(&mut args, kv("TITLE=", t.title.as_str()));
    push_arg(&mut args, kv("ARTIST=", t.artist.as_str()));
    push_arg(&mut args, kv("ALBUM=", t.album.as_str()));
    push_arg(&mut args, kv("BUNDLE=", t.bundle_id.as_str()));
    push_arg(&mut args, kv("PLAYING=", bool_string(t.playing)));
    push_arg(&mut args, kv("LABEL=", label.as_str()));
    push_arg(&mut args, kv("ICON=", icon));
    push_arg(&mut args, kv("PREV_ICON=", ICON_PREV));
    push_arg(&mut args, kv("TOGGLE_ICON=", toggle));
    push_arg(&mut args, kv("NEXT_ICON=", ICON_NEXT));
    assert(string_views(args@) =~= trigger_args_spec(event@, opt_track_view(track), cfg@));
    args
}

/// Appends the `--set` arguments of a control item of the given kind.
pub fn push_set_control(cmd: &mut Vec<String>, item: &str, kind: &str, track: Option<&Track>)
    ensures
        string_views(final(cmd)@) == string_views(old(cmd)@) + control_args_spec(
            item@,
            kind@,
            opt_track_view(track),
        ),
{
    let ghost before = string_views(cmd@);
    let placeholder = Track::placeholder();
    let t: &Track = match track {
        Some(t) => t,
        None => &placeholder,
    };
    push_arg(cmd, String::from_str("--set"));
    push_arg(cmd, String::from_str(item));
    if str_eq(kind, ".sep") {
        push_arg(cmd, String::from_str("label=|"));
        push_arg(cmd, String::from_str("icon.drawing=off"));
    } else {
        let icon = if str_eq(kind, ".prev") {
            ICON_PREV
        } else if str_eq(kind, ".next") {
            ICON_NEXT
        } else {
            toggle_icon(t.playing)
        };
        push_arg(cmd, kv("icon=", icon));
        push_arg(cmd, String::from_str("label.drawing=off"));
    }
    push_arg(cmd, String::from_str("drawing=on"));
    assert(string_views(cmd@) =~= before + control_args_spec(item@, kind@, opt_track_view(track)));
}

/// Appends the `--set` arguments of `item`: a control item when its name
/// ends with a control suffix, else the main item.
pub fn push_set(cmd: &mut Vec<String>, item: &str, track: Option<&Track>, cfg: &Config)
    ensures
        string_views(final(cmd)@) == string_views(old(cmd)@) + set_args_spec(item@, opt_track_view(track), cfg@),
{
    if let Some(kind) = control_of(item) {
        push_set_control(cmd, item, kind, track);
        return ;
    }
    let ghost before = string_views(cmd@);
    let placeholder = Track::placeholder();
    let t: &Track = match track {
        Some(t) => t,
        None => &placeholder,
    };
    let label = t.label(cfg.separator.as_str());
    let icon = resolve_icon(cfg, t.bundle_id.as_str());
    let scroll = if t.playing {
        "scroll_texts=on"
    } else {
        "scroll_texts=off"
    };
    push_arg(cmd, String::from_str("--set"));
    push_arg(cmd, String::from_str(item));
    push_arg(cmd, kv("label=", label.as_str()));
    push_arg(cmd, kv("icon=", icon));
    push_arg(cmd, String::from_str(scroll));
    push_arg(cmd, String::from_str("drawing=on"));
    assert(string_views(cmd@) =~= before + set_args_spec(item@, opt_track_view(track), cfg@));
}

/// Arguments of one `sketchybar` call that sets the main item that `item`
/// belongs to and each of its control siblings.
pub fn set_with_controls_args(item: &str, track: Option<&Track>, cfg: &Config) -> (args: Vec<
    String,
>)
    ensures
        string_views(args@) == set_with_controls_spec(item@, opt_track_view(track), cfg@),
{
    let base: &str = match control_of(item) {
        Some(suffix) => {
            let n = item.unicode_len();
            let k = suffix.unicode_len();
            item.substring_char(0, n - k)
        },
        None => item,
    };
    assert(base@ == base_item(item@));
    let mut args: Vec<String> = Vec::new();
    push_set(&mut args, base, track, cfg);
    assert(string_views(args@) =~= set_args_spec(base@, opt_track_view(track), cfg@) + siblings_args(
        base@,
        opt_track_view(track),
        0,
    ));
    let mut i: usize = 0;
    while i < 4
        invariant
            0 <= i <= 4,
            base@ == base_item(item@),
            string_views(args@) == set_args_spec(base@, opt_track_view(track), cfg@) + siblings_args(
                base@,
                opt_track_view(track),
                i as nat,
            ),
        decreases 4 - i,
    {
        let suffix = suffix_at(i);
        let sibling = kv(base, suffix);
        push_set_control(&mut args, sibling.as_str(), suffix, track);
        assert(string_views(args@) =~= set_args_spec(base@, opt_track_view(track), cfg@) + siblings_args(
            base@,
            opt_track_view(track),
            (i + 1) as nat,
        ));
        i = i + 1;
    }
    args
}


/// The arguments the daemon notifies the bar with: a `--set` of the whole
/// pill when it drives an item directly, else the trigger of `event`.
pub open spec fn notify_args_spec(
    event: Seq<char>,
    set_item: Option<Seq<char>>,
    track: Option<TrackView>,
    cfg: ConfigView,
) -> Seq<Seq<char>> {
    match set_item {
        Some(item) => set_with_controls_spec(item, track, cfg),
        None => trigger_args_spec(event, track, cfg),
    }
}

/// The arguments of one daemon notification.
pub fn notify_args(event: &str, set_item: Option<&str>, track: Option<&Track>, cfg: &Config) -> (args:
    Vec<String>)
    ensures
        string_views(args@) == notify_args_spec(
            event@,
            match set_item {
                Some(i) => Some(i@),
                None => None,
            },
            opt_track_view(track),
            cfg@,
        ),
{
    match set_item {
        Some(item) => set_with_controls_args(item, track, cfg),
        None => trigger_args(event, track, cfg),
    }
}

/// The fixed glyph, when configured, is shown for every player, whatever
/// the overrides say; an empty fixed glyph counts as unset.
pub proof fn static_icon_wins(cfg: ConfigView, bundle_id: Seq<char>, glyph: Seq<char>)
    requires
        cfg.static_icon == Some(glyph),
    ensures
        glyph.len() > 0 ==> resolve_icon_spec(cfg, bundle_id) == glyph,
        glyph.len() == 0 ==> resolve_icon_spec(cfg, bundle_id) == icon_with_overrides_spec(
            cfg.icon_overrides,
            bundle_id,
        ),
        glyph.len() == 0 ==> resolve_icon_spec(cfg, bundle_id) == resolve_icon_spec(
            ConfigView { static_icon: None, ..cfg },
            bundle_id,
        ),
{
}

/// The trigger call has the same shape for every snapshot: twelve
/// arguments, the first two fixed by the event, each later one a fixed key
/// followed by its value, so track text never becomes a flag or command.
pub proof fn trigger_shape_is_fixed(event: Seq<char>, track: Option<TrackView>, cfg: ConfigView)
    ensures
        ({
            let args = trigger_args_spec(event, track, cfg);
            &&& args.len() == 12
            &&& args[0] == "--trigger"@
            &&& args[1] == event
            &&& args[2].subrange(0, 6) == "TITLE="@
            &&& args[7].subrange(0, 6) == "LABEL="@
        }),
{
    reveal_strlit("TITLE=");
    reveal_strlit("LABEL=");
    let args = trigger_args_spec(event, track, cfg);
    assert(args[2].subrange(0, 6) =~= "TITLE="@);
    assert(args[7].subrange(0, 6) =~= "LABEL="@);
}

/// Every item is drawn, idle or not: each `--set` group ends with
/// `drawing=on`, for the main item and for each control item.
pub proof fn set_args_always_draw(item: Seq<char>, track: Option<TrackView>, cfg: ConfigView, kind: Seq<char>)
    ensures
        set_args_spec(item, track, cfg).last() == "drawing=on"@,
        control_args_spec(item, kind, track).last() == "drawing=on"@,
        set_args_spec(item, track, cfg)[0] == "--set"@,
        set_args_spec(item, track, cfg)[1] == item,
{
}

proof fn sibling_names_their_kind(base: Seq<char>, k: int)
    requires
        0 <= k < 4,
    ensures
        control_of_spec(base + control_suffixes()[k]) == Some(control_suffixes()[k]),
{
    reveal_strlit(".sep");
    reveal_strlit(".prev");
    reveal_strlit(".toggle");
    reveal_strlit(".next");
    let sfx = control_suffixes();
    let name = base + sfx[k];
    assert(name.subrange(name.len() - sfx[k].len(), name.len() as int) =~= sfx[k]);
    assert(ends_with_seq(name, sfx[k]));
    assert(name.last() == sfx[k].last());
    assert forall|j: int| 0 <= j < 4 && j != k implies !ends_with_seq(name, #[trigger] sfx[j]) by {
        if ends_with_seq(name, sfx[j]) {
            let tail = name.subrange(name.len() - sfx[j].len(), name.len() as int);
            assert(tail.last() == name.last());
            assert(sfx[j].last() != sfx[k].last());
        }
    }
    assert(control_from(name, 4) is None);
    if k <= 3 {
        assert(control_from(name, 3) == if k == 3 { Some(sfx[3]) } else { None::<Seq<char>> });
    }
    if k <= 2 {
        assert(control_from(name, 2) == if k == 2 { Some(sfx[2]) } else { None::<Seq<char>> });
    }
    if k <= 1 {
        assert(control_from(name, 1) == if k == 1 { Some(sfx[1]) } else { None::<Seq<char>> });
    }
}

/// A sync of any item of the pill updates the whole pill alike: setting a
/// control sibling `base.sep`, `base.prev`, `base.toggle` or `base.next`
/// gives exactly the call that setting `base` gives.
pub proof fn any_pill_item_sets_the_whole_pill(
    base: Seq<char>,
    k: int,
    track: Option<TrackView>,
    cfg: ConfigView,
)
    requires
        control_of_spec(base) is None,
        0 <= k < 4,
    ensures
        set_with_controls_spec(base + control_suffixes()[k], track, cfg) == set_with_controls_spec(
            base,
            track,
            cfg,
        ),
{
    sibling_names_their_kind(base, k);
    let name = base + control_suffixes()[k];
    assert(name.subrange(0, name.len() - control_suffixes()[k].len()) =~= base);
    assert(base_item(name) == base);
    assert(base_item(base) == base);
}


/// The text the bar shows for a track: the title, then the separator and
/// the artist when there is an artist.
pub open spec fn bar_text(title: Seq<char>, artist: Seq<char>, sep: Seq<char>) -> Seq<char> {
    if artist.len() > 0 {
        title + sep + artist
    } else {
        title
    }
}

/// The trigger carries the snapshot's own fields, one per argument: its
/// title, artist, album and bundle id, `true` or `false` for playing, the
/// label joined with the configured separator, the player glyph, the
/// previous and next glyphs, and the pause glyph while playing (play
/// otherwise). When idle it carries the placeholder: no player, not
/// playing.
pub proof fn trigger_carries_the_snapshot(event: Seq<char>, track: Option<TrackView>, cfg: ConfigView)
    ensures
        ({
            let args = trigger_args_spec(event, track, cfg);
            &&& args.len() == 12
            &&& args[0] == "--trigger"@
            &&& args[1] == event
            &&& track matches Some(t) ==> {
                &&& args[2] == "TITLE="@ + t.title
                &&& args[3] == "ARTIST="@ + t.artist
                &&& args[4] == "ALBUM="@ + t.album
                &&& args[5] == "BUNDLE="@ + t.bundle_id
                &&& args[6] == "PLAYING="@ + (if t.playing {
                    "true"@
                } else {
                    "false"@
                })
                &&& args[7] == "LABEL="@ + bar_text(t.title, t.artist, cfg.separator)
                &&& args[8] == "ICON="@ + resolve_icon_spec(cfg, t.bundle_id)
                &&& args[10] == "TOGGLE_ICON="@ + (if t.playing {
                    ICON_PAUSE@
                } else {
                    ICON_PLAY@
                })
            }
            &&& track is None ==> {
                &&& args[2] == "TITLE=No player available"@
                &&& args[6] == "PLAYING=false"@
                &&& args[7] == "LABEL=No player available"@
                &&& args[10] == "TOGGLE_ICON="@ + ICON_PLAY@
            }
            &&& args[9] == "PREV_ICON="@ + ICON_PREV@
            &&& args[11] == "NEXT_ICON="@ + ICON_NEXT@
        }),
{
    reveal_strlit("TITLE=");
    reveal_strlit("PLAYING=");
    reveal_strlit("LABEL=");
    reveal_strlit("No player available");
    reveal_strlit("TITLE=No player available");
    reveal_strlit("PLAYING=false");
    reveal_strlit("LABEL=No player available");
    reveal_strlit("false");
    let args = trigger_args_spec(event, track, cfg);
    if track is None {
        assert(args[2] =~= "TITLE=No player available"@);
        assert(args[6] =~= "PLAYING=false"@);
        assert(args[7] =~= "LABEL=No player available"@);
    }
}

/// The main item shows the snapshot: its label joined with the configured
/// separator, the player glyph, scrolling only while playing, and it is
/// always drawn; when idle it shows the placeholder without scrolling.
pub proof fn main_item_shows_the_snapshot(item: Seq<char>, track: Option<TrackView>, cfg: ConfigView)
    requires
        control_of_spec(item) is None,
    ensures
        ({
            let args = set_args_spec(item, track, cfg);
            &&& args.len() == 6
            &&& args[0] == "--set"@
            &&& args[1] == item
            &&& track matches Some(t) ==> {
                &&& args[2] == "label="@ + bar_text(t.title, t.artist, cfg.separator)
                &&& args[3] == "icon="@ + resolve_icon_spec(cfg, t.bundle_id)
                &&& args[4] == (if t.playing {
                    "scroll_texts=on"@
                } else {
                    "scroll_texts=off"@
                })
            }
            &&& track is None ==> args[2] == "label=No player available"@ && args[4]
                == "scroll_texts=off"@
            &&& args[5] == "drawing=on"@
        }),
{
    reveal_strlit("label=");
    reveal_strlit("No player available");
    reveal_strlit("label=No player available");
    let args = set_args_spec(item, track, cfg);
    if track is None {
        assert(args[2] =~= "label=No player available"@);
    }
}

/// The control siblings in one pill update: after the main item's group
/// come, in order, `.sep` (a bar, no icon), `.prev` (previous glyph),
/// `.toggle` (pause glyph while the track plays, play glyph otherwise)
/// and `.next` (next glyph), each named after the pill's main item and
/// drawn; so the pill's toggle matches the snapshot exactly as the toggle
/// control set on its own does.
pub proof fn pill_controls_follow_the_track(item: Seq<char>, track: Option<TrackView>, cfg: ConfigView)
    ensures
        ({
            let args = set_with_controls_spec(item, track, cfg);
            let base = base_item(item);
            let n = set_args_spec(base, track, cfg).len() as int;
            let playing = track matches Some(t) && t.playing;
            &&& args.len() == n + 20
            &&& args.subrange(n, n + 5) == seq![
                "--set"@,
                base + ".sep"@,
                "label=|"@,
                "icon.drawing=off"@,
                "drawing=on"@,
            ]
            &&& args.subrange(n + 5, n + 10) == seq![
                "--set"@,
                base + ".prev"@,
                "icon="@ + ICON_PREV@,
                "label.drawing=off"@,
                "drawing=on"@,
            ]
            &&& args.subrange(n + 10, n + 15) == seq![
                "--set"@,
                base + ".toggle"@,
                "icon="@ + (if playing {
                    ICON_PAUSE@
                } else {
                    ICON_PLAY@
                }),
                "label.drawing=off"@,
                "drawing=on"@,
            ]
            &&& args.subrange(n + 15, n + 20) == seq![
                "--set"@,
                base + ".next"@,
                "icon="@ + ICON_NEXT@,
                "label.drawing=off"@,
                "drawing=on"@,
            ]
            &&& args.subrange(n + 10, n + 15) == control_args_spec(
                base + ".toggle"@,
                ".toggle"@,
                track,
            )
        }),
{
    reveal_strlit(".sep");
    reveal_strlit(".prev");
    reveal_strlit(".toggle");
    reveal_strlit(".next");
    let base = base_item(item);
    let head = set_args_spec(base, track, cfg);
    let n = head.len() as int;
    let sfx = control_suffixes();
    let g0 = control_args_spec(base + sfx[0], sfx[0], track);
    let g1 = control_args_spec(base + sfx[1], sfx[1], track);
    let g2 = control_args_spec(base + sfx[2], sfx[2], track);
    let g3 = control_args_spec(base + sfx[3], sfx[3], track);
    assert(siblings_args(base, track, 0) =~= Seq::<Seq<char>>::empty());
    assert(siblings_args(base, track, 1) =~= g0);
    assert(siblings_args(base, track, 2) =~= g0 + g1);
    assert(siblings_args(base, track, 3) =~= g0 + g1 + g2);
    assert(siblings_args(base, track, 4) =~= g0 + g1 + g2 + g3);
    assert(sfx[1] != ".sep"@);
    assert(sfx[2] != ".sep"@ && sfx[2] != ".prev"@ && sfx[2] != ".next"@);
    assert(".next"@[1] != ".sep"@[1] && ".next"@[1] != ".prev"@[1]);
    assert(sfx[3] != ".sep"@ && sfx[3] != ".prev"@);
    let args = set_with_controls_spec(item, track, cfg);
    assert(args =~= head + (g0 + g1 + g2 + g3));
    assert(args.subrange(n, n + 5) =~= g0);
    assert(args.subrange(n + 5, n + 10) =~= g1);
    assert(args.subrange(n + 10, n + 15) =~= g2);
    assert(args.subrange(n + 15, n + 20) =~= g3);
}

} // verus!
