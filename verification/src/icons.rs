//! Nerd Font glyphs for players and transport controls.
use vstd::prelude::*;

use crate::text::{contains_seq, str_contains, str_eq};

verus! {

pub const ICON_DEFAULT: &'static str = "\u{f001}";
pub const ICON_SPOTIFY: &'static str = "\u{f1bc}";
pub const ICON_BROWSER: &'static str = "\u{f269}";
pub const ICON_MUSIC: &'static str = "\u{f001}";
pub const ICON_PREV: &'static str = "\u{f048}";
pub const ICON_PLAY: &'static str = "\u{f04b}";
pub const ICON_PAUSE: &'static str = "\u{f04c}";
pub const ICON_NEXT: &'static str = "\u{f051}";

/// The glyph of the play/pause control: pause while playing, play otherwise.
pub open spec fn toggle_icon_spec(playing: bool) -> Seq<char> {
    if playing {
        ICON_PAUSE@
    } else {
        ICON_PLAY@
    }
}

pub fn toggle_icon(playing: bool) -> (icon: &'static str)
    ensures
        icon@ == toggle_icon_spec(playing),
{
    if playing {
        ICON_PAUSE
    } else {
        ICON_PLAY
    }
}


/// Bundle ids of the browsers whose media sessions get the browser glyph.
const BROWSERS: [&'static str; 8] = [
    "com.apple.Safari",
    "com.google.Chrome",
    "org.mozilla.firefox",
    "company.thebrowser.Browser",
    "com.brave.Browser",
    "com.microsoft.edgemac",
    "com.mighty.app",
    "org.chromium.Chromium",
];

/// The known browser bundle ids, as character sequences.
pub open spec fn browser_ids() -> Seq<Seq<char>> {
    seq![
        "com.apple.Safari"@,
        "com.google.Chrome"@,
        "org.mozilla.firefox"@,
        "company.thebrowser.Browser"@,
        "com.brave.Browser"@,
        "com.microsoft.edgemac"@,
        "com.mighty.app"@,
        "org.chromium.Chromium"@,
    ]
}

/// The built-in glyph for a player, chosen by its bundle id.
pub open spec fn icon_for_spec(bundle_id: Seq<char>) -> Seq<char> {
    if bundle_id == "com.spotify.client"@ {
        ICON_SPOTIFY@
    } else if bundle_id == "com.apple.Music"@ || bundle_id == "com.apple.iTunes"@ {
        ICON_MUSIC@
    } else if browser_ids().contains(bundle_id) {
        ICON_BROWSER@
    } else {
        ICON_DEFAULT@
    }
}

fn is_browser(bundle_id: &str) -> (res: bool)
    ensures
        res == browser_ids().contains(bundle_id@),
{
    let mut i: usize = 0;
    while i < 8
        invariant
            0 <= i <= 8,
            forall|j: int| 0 <= j < i ==> browser_ids()[j] != bundle_id@,
        decreases 8 - i,
    {
        assert(BROWSERS@[i as int]@ == browser_ids()[i as int]);
        if str_eq(BROWSERS[i], bundle_id) {
            assert(browser_ids()[i as int] == bundle_id@);
            return true;
        }
        i = i + 1;
    }
    proof {
        if browser_ids().contains(bundle_id@) {
            let k = choose|k: int| 0 <= k < browser_ids().len() && browser_ids()[k] == bundle_id@;
            assert(browser_ids()[k] != bundle_id@);
        }
    }
    false
}

pub fn icon_for(bundle_id: &str) -> (icon: &'static str)
    ensures
        icon@ == icon_for_spec(bundle_id@),
{
    if str_eq(bundle_id, "com.spotify.client") {
        ICON_SPOTIFY
    } else if str_eq(bundle_id, "com.apple.Music") || str_eq(bundle_id, "com.apple.iTunes") {
        ICON_MUSIC
    } else if is_browser(bundle_id) {
        ICON_BROWSER
    } else {
        ICON_DEFAULT
    }
}


/// The overrides as pairs of character sequences (bundle id pattern, glyph).
pub open spec fn pairs_view(overrides: Seq<(String, String)>) -> Seq<(Seq<char>, Seq<char>)> {
    overrides.map_values(|p: (String, String)| (p.0@, p.1@))
}

/// The glyph of the first override, at `from` or later, whose key is
/// exactly `bundle_id`.
pub open spec fn exact_override(
    overrides: Seq<(Seq<char>, Seq<char>)>,
    bundle_id: Seq<char>,
    from: nat,
) -> Option<Seq<char>>
    decreases overrides.len() - from,
{
    if from >= overrides.len() {
        None
    } else if overrides[from as int].0 == bundle_id {
        Some(overrides[from as int].1)
    } else {
        exact_override(overrides, bundle_id, from + 1)
    }
}

/// The glyph of the first override, at `from` or later, whose key is not
/// empty and occurs inside `bundle_id`.
pub open spec fn partial_override(
    overrides: Seq<(Seq<char>, Seq<char>)>,
    bundle_id: Seq<char>,
    from: nat,
) -> Option<Seq<char>>
    decreases overrides.len() - from,
{
    if from >= overrides.len() {
        None
    } else if overrides[from as int].0.len() > 0 && contains_seq(
        bundle_id,
        overrides[from as int].0,
    ) {
        Some(overrides[from as int].1)
    } else {
        partial_override(overrides, bundle_id, from + 1)
    }
}

/// The glyph for a player given user overrides: an exact key match wins,
/// then a key contained in the bundle id, then the built-in choice.
pub open spec fn icon_with_overrides_spec(
    overrides: Seq<(Seq<char>, Seq<char>)>,
    bundle_id: Seq<char>,
) -> Seq<char> {
    match exact_override(overrides, bundle_id, 0) {
        Some(glyph) => glyph,
        None => match partial_override(overrides, bundle_id, 0) {
            Some(glyph) => glyph,
            None => icon_for_spec(bundle_id),
        },
    }
}

pub fn icon_for_with_overrides<'a>(overrides: &'a Vec<(String, String)>, bundle_id: &str) -> (icon:
    &'a str)
    ensures
        icon@ == icon_with_overrides_spec(pairs_view(overrides@), bundle_id@),
{
    let ghost ov = pairs_view(overrides@);
    let n = overrides.len();
    let mut i: usize = 0;
    while i < n
        invariant
            n == overrides@.len(),
            ov == pairs_view(overrides@),
            0 <= i <= n,
            exact_override(ov, bundle_id@, 0) == exact_override(ov, bundle_id@, i as nat),
        decreases n - i,
    {
        assert(ov[i as int] == (overrides@[i as int].0@, overrides@[i as int].1@));
        if str_eq(overrides[i].0.as_str(), bundle_id) {
            return overrides[i].1.as_str();
        }
        i = i + 1;
    }
    let mut j: usize = 0;
    while j < n
        invariant
            n == overrides@.len(),
            ov == pairs_view(overrides@),
            0 <= j <= n,
            exact_override(ov, bundle_id@, 0) is None,
            partial_override(ov, bundle_id@, 0) == partial_override(ov, bundle_id@, j as nat),
        decreases n - j,
    {
        assert(ov[j as int] == (overrides@[j as int].0@, overrides@[j as int].1@));
        let key = overrides[j].0.as_str();
        if !key.is_empty() && str_contains(bundle_id, key) {
            return overrides[j].1.as_str();
        }
        j = j + 1;
    }
    icon_for(bundle_id)
}


proof fn exact_override_finds_first(
    overrides: Seq<(Seq<char>, Seq<char>)>,
    bundle_id: Seq<char>,
    from: nat,
    i: int,
)
    requires
        from <= i < overrides.len(),
        overrides[i].0 == bundle_id,
        forall|j: int| from <= j < i ==> #[trigger] overrides[j].0 != bundle_id,
    ensures
        exact_override(overrides, bundle_id, from) == Some(overrides[i].1),
    decreases i - from,
{
    if from < i {
        exact_override_finds_first(overrides, bundle_id, from + 1, i);
    }
}

/// A user entry whose key is exactly the bundle id wins over every partial
/// match and over the built-in glyph: the glyph shown is that of the first
/// such entry.
pub proof fn exact_override_wins(overrides: Seq<(Seq<char>, Seq<char>)>, bundle_id: Seq<char>, i: int)
    requires
        0 <= i < overrides.len(),
        overrides[i].0 == bundle_id,
        forall|j: int| 0 <= j < i ==> #[trigger] overrides[j].0 != bundle_id,
    ensures
        icon_with_overrides_spec(overrides, bundle_id) == overrides[i].1,
{
    exact_override_finds_first(overrides, bundle_id, 0, i);
}

proof fn no_override_from(overrides: Seq<(Seq<char>, Seq<char>)>, bundle_id: Seq<char>, from: nat)
    requires
        overrides.len() == 0,
    ensures
        exact_override(overrides, bundle_id, from) is None,
        partial_override(overrides, bundle_id, from) is None,
{
}

/// Without user entries the built-in glyph is shown.
pub proof fn no_overrides_means_built_in(bundle_id: Seq<char>)
    ensures
        icon_with_overrides_spec(Seq::empty(), bundle_id) == icon_for_spec(bundle_id),
{
    no_override_from(Seq::empty(), bundle_id, 0);
}


proof fn exact_override_absent(overrides: Seq<(Seq<char>, Seq<char>)>, bundle_id: Seq<char>, from: nat)
    requires
        forall|i: int| 0 <= i < overrides.len() ==> #[trigger] overrides[i].0 != bundle_id,
    ensures
        exact_override(overrides, bundle_id, from) is None,
    decreases overrides.len() - from,
{
    if from < overrides.len() {
        exact_override_absent(overrides, bundle_id, from + 1);
    }
}

proof fn partial_override_finds_first(
    overrides: Seq<(Seq<char>, Seq<char>)>,
    bundle_id: Seq<char>,
    from: nat,
    k: int,
)
    requires
        from <= k < overrides.len(),
        overrides[k].0.len() > 0,
        contains_seq(bundle_id, overrides[k].0),
    ensures
        exists|j: int|
            from <= j <= k && #[trigger] overrides[j].0.len() > 0 && contains_seq(
                bundle_id,
                overrides[j].0,
            ) && partial_override(overrides, bundle_id, from) == Some(overrides[j].1) && (
            forall|m: int|
                from <= m < j ==> !(#[trigger] overrides[m].0.len() > 0 && contains_seq(
                    bundle_id,
                    overrides[m].0,
                ))),
    decreases k - from,
{
    let f = from as int;
    if overrides[f].0.len() > 0 && contains_seq(bundle_id, overrides[f].0) {
        assert(partial_override(overrides, bundle_id, from) == Some(overrides[f].1));
    } else {
        partial_override_finds_first(overrides, bundle_id, from + 1, k);
        let j = choose|j: int|
            from + 1 <= j <= k && #[trigger] overrides[j].0.len() > 0 && contains_seq(
                bundle_id,
                overrides[j].0,
            ) && partial_override(overrides, bundle_id, (from + 1) as nat) == Some(overrides[j].1)
                && (forall|m: int|
                from + 1 <= m < j ==> !(#[trigger] overrides[m].0.len() > 0 && contains_seq(
                    bundle_id,
                    overrides[m].0,
                )));
        assert(forall|m: int|
            from <= m < j ==> !(#[trigger] overrides[m].0.len() > 0 && contains_seq(
                bundle_id,
                overrides[m].0,
            )));
    }
}

proof fn partial_override_absent(overrides: Seq<(Seq<char>, Seq<char>)>, bundle_id: Seq<char>, from: nat)
    requires
        forall|i: int|
            0 <= i < overrides.len() ==> !(#[trigger] overrides[i].0.len() > 0 && contains_seq(
                bundle_id,
                overrides[i].0,
            )),
    ensures
        partial_override(overrides, bundle_id, from) is None,
    decreases overrides.len() - from,
{
    if from < overrides.len() {
        partial_override_absent(overrides, bundle_id, from + 1);
    }
}

/// When no user key equals the bundle id, every entry is tried as a partial
/// match: if any entry, at whatever position, has a non-empty key occurring
/// in the bundle id, the glyph shown is that of such an entry (the first
/// one in the list), never the built-in glyph; and when no entry matches at
/// all, the built-in glyph is shown.
pub proof fn partial_override_wins(
    overrides: Seq<(Seq<char>, Seq<char>)>,
    bundle_id: Seq<char>,
    k: int,
)
    requires
        forall|i: int| 0 <= i < overrides.len() ==> #[trigger] overrides[i].0 != bundle_id,
    ensures
        0 <= k < overrides.len() && overrides[k].0.len() > 0 && contains_seq(
            bundle_id,
            overrides[k].0,
        ) ==> exists|j: int|
            0 <= j <= k && #[trigger] overrides[j].0.len() > 0 && contains_seq(
                bundle_id,
                overrides[j].0,
            ) && icon_with_overrides_spec(overrides, bundle_id) == overrides[j].1,
        (forall|i: int|
            0 <= i < overrides.len() ==> !(#[trigger] overrides[i].0.len() > 0 && contains_seq(
                bundle_id,
                overrides[i].0,
            ))) ==> icon_with_overrides_spec(overrides, bundle_id) == icon_for_spec(bundle_id),
{
    exact_override_absent(overrides, bundle_id, 0);
    if 0 <= k < overrides.len() && overrides[k].0.len() > 0 && contains_seq(
        bundle_id,
        overrides[k].0,
    ) {
        partial_override_finds_first(overrides, bundle_id, 0, k);
    }
    if forall|i: int|
        0 <= i < overrides.len() ==> !(#[trigger] overrides[i].0.len() > 0 && contains_seq(
            bundle_id,
            overrides[i].0,
        )) {
        partial_override_absent(overrides, bundle_id, 0);
    }
}


/// The built-in glyphs: Spotify gets the Spotify glyph, Apple Music and
/// iTunes the music note, each of the eight known browsers the browser
/// glyph, and any other player the default note; the play/pause control
/// shows pause exactly while playing.
pub proof fn built_in_glyphs(bundle_id: Seq<char>, playing: bool)
    ensures
        bundle_id == "com.spotify.client"@ ==> icon_for_spec(bundle_id) == ICON_SPOTIFY@,
        bundle_id == "com.apple.Music"@ || bundle_id == "com.apple.iTunes"@ ==> icon_for_spec(
            bundle_id,
        ) == ICON_MUSIC@,
        bundle_id == "com.apple.Safari"@ || bundle_id == "com.google.Chrome"@ || bundle_id
            == "org.mozilla.firefox"@ || bundle_id == "company.thebrowser.Browser"@ || bundle_id
            == "com.brave.Browser"@ || bundle_id == "com.microsoft.edgemac"@ || bundle_id
            == "com.mighty.app"@ || bundle_id == "org.chromium.Chromium"@ ==> icon_for_spec(
            bundle_id,
        ) == ICON_BROWSER@,
        !(bundle_id == "com.spotify.client"@ || bundle_id == "com.apple.Music"@ || bundle_id
            == "com.apple.iTunes"@ || bundle_id == "com.apple.Safari"@ || bundle_id
            == "com.google.Chrome"@ || bundle_id == "org.mozilla.firefox"@ || bundle_id
            == "company.thebrowser.Browser"@ || bundle_id == "com.brave.Browser"@ || bundle_id
            == "com.microsoft.edgemac"@ || bundle_id == "com.mighty.app"@ || bundle_id
            == "org.chromium.Chromium"@) ==> icon_for_spec(bundle_id) == ICON_DEFAULT@,
        playing ==> toggle_icon_spec(playing) == ICON_PAUSE@,
        !playing ==> toggle_icon_spec(playing) == ICON_PLAY@,
{
    reveal_strlit("com.spotify.client");
    reveal_strlit("com.apple.Music");
    reveal_strlit("com.apple.iTunes");
    reveal_strlit("com.apple.Safari");
    reveal_strlit("com.google.Chrome");
    reveal_strlit("org.mozilla.firefox");
    reveal_strlit("company.thebrowser.Browser");
    reveal_strlit("com.brave.Browser");
    reveal_strlit("com.microsoft.edgemac");
    reveal_strlit("com.mighty.app");
    reveal_strlit("org.chromium.Chromium");
    assert("com.spotify.client"@.len() == 18);
    assert("com.apple.Music"@.len() == 15);
    assert("com.apple.iTunes"@.len() == 16);
    assert("com.apple.Safari"@.len() == 16);
    assert("com.google.Chrome"@.len() == 17);
    assert("org.mozilla.firefox"@.len() == 19);
    assert("company.thebrowser.Browser"@.len() == 26);
    assert("com.brave.Browser"@.len() == 17);
    assert("com.microsoft.edgemac"@.len() == 21);
    assert("com.mighty.app"@.len() == 14);
    assert("org.chromium.Chromium"@.len() == 21);
    assert("com.apple.Safari"@[10] != "com.apple.iTunes"@[10]);
    let b = browser_ids();
    if browser_ids().contains(bundle_id) {
        let k = choose|k: int| 0 <= k < b.len() && b[k] == bundle_id;
        assert(k == 0 || k == 1 || k == 2 || k == 3 || k == 4 || k == 5 || k == 6 || k == 7);
    }
    if bundle_id == "com.apple.Safari"@ {
        assert(b[0] == bundle_id);
    }
    if bundle_id == "com.google.Chrome"@ {
        assert(b[1] == bundle_id);
    }
    if bundle_id == "org.mozilla.firefox"@ {
        assert(b[2] == bundle_id);
    }
    if bundle_id == "company.thebrowser.Browser"@ {
        assert(b[3] == bundle_id);
    }
    if bundle_id == "com.brave.Browser"@ {
        assert(b[4] == bundle_id);
    }
    if bundle_id == "com.microsoft.edgemac"@ {
        assert(b[5] == bundle_id);
    }
    if bundle_id == "com.mighty.app"@ {
        assert(b[6] == bundle_id);
    }
    if bundle_id == "org.chromium.Chromium"@ {
        assert(b[7] == bundle_id);
    }
}

} // verus!
