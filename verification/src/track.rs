//! The now-playing snapshot and its label.
use vstd::prelude::*;

use crate::text::{str_trim, trim_seq};

verus! {

/// One snapshot of what is playing.
#[derive(Debug, Clone)]
pub struct Track {
    pub title: String,
    pub artist: String,
    pub album: String,
    pub bundle_id: String,
    pub playing: bool,
}

/// The mathematical value of a [`Track`].
pub struct TrackView {
    pub title: Seq<char>,
    pub artist: Seq<char>,
    pub album: Seq<char>,
    pub bundle_id: Seq<char>,
    pub playing: bool,
}

impl View for Track {
    type V = TrackView;

    open spec fn view(&self) -> TrackView {
        TrackView {
            title: self.title@,
            artist: self.artist@,
            album: self.album@,
            bundle_id: self.bundle_id@,
            playing: self.playing,
        }
    }
}

impl PartialEq for Track {
    fn eq(&self, other: &Self) -> (res: bool) {
        self.title == other.title && self.artist == other.artist && self.album == other.album
            && self.bundle_id == other.bundle_id && self.playing == other.playing
    }
}

impl vstd::std_specs::cmp::PartialEqSpecImpl for Track {
    open spec fn obeys_eq_spec() -> bool {
        true
    }

    open spec fn eq_spec(&self, other: &Self) -> bool {
        self@ == other@
    }
}

impl Eq for Track {
}

/// The characters of an optional string slice.
pub open spec fn opt_str_view(s: Option<&str>) -> Option<Seq<char>> {
    match s {
        Some(t) => Some(t@),
        None => None,
    }
}

/// The trimmed optional field, or the empty sequence when absent.
pub open spec fn trimmed_or_empty(s: Option<Seq<char>>) -> Seq<char> {
    match s {
        Some(t) => trim_seq(t),
        None => Seq::empty(),
    }
}

/// The snapshot built from raw player fields: none without a title that
/// is non-empty once trimmed; artist and album are trimmed, the bundle id
/// is kept as given.
pub open spec fn from_parts_spec(
    title: Option<Seq<char>>,
    artist: Option<Seq<char>>,
    album: Option<Seq<char>>,
    bundle_id: Option<Seq<char>>,
    playing: bool,
) -> Option<TrackView> {
    match title {
        Some(t) if trim_seq(t).len() > 0 => Some(
            TrackView {
                title: trim_seq(t),
                artist: trimmed_or_empty(artist),
                album: trimmed_or_empty(album),
                bundle_id: match bundle_id {
                    Some(b) => b,
                    None => Seq::empty(),
                },
                playing,
            },
        ),
        _ => None,
    }
}

/// The text shown in the bar: the title alone when there is no artist,
/// else title, separator and artist.
pub open spec fn label_spec(t: TrackView, sep: Seq<char>) -> Seq<char> {
    if t.artist.len() == 0 {
        t.title
    } else {
        t.title + sep + t.artist
    }
}

/// The entry shown while nothing plays.
pub open spec fn placeholder_spec() -> TrackView {
    TrackView {
        title: "No player available"@,
        artist: Seq::empty(),
        album: Seq::empty(),
        bundle_id: Seq::empty(),
        playing: false,
    }
}

fn trimmed_or_empty_string(s: Option<&str>) -> (res: String)
    ensures
        res@ == trimmed_or_empty(opt_str_view(s)),
{
    match s {
        Some(t) => str_trim(t).to_owned(),
        None => String::new(),
    }
}

impl Track {
    /// None when title is missing.
    pub fn from_parts(
        title: Option<&str>,
        artist: Option<&str>,
        album: Option<&str>,
        bundle_id: Option<&str>,
        playing: bool,
    ) -> (res: Option<Self>)
        ensures
            match (res, from_parts_spec(
                opt_str_view(title),
                opt_str_view(artist),
                opt_str_view(album),
                opt_str_view(bundle_id),
                playing,
            )) {
                (Some(t), Some(v)) => t@ == v,
                (None, None) => true,
                _ => false,
            },
    {
        let t = match title {
            Some(t) => str_trim(t),
            None => {
                return None;
            },
        };
        if t.is_empty() {
            return None;
        }
        let b = match bundle_id {
            Some(b) => b.to_owned(),
            None => String::new(),
        };
        Some(
            Track {
                title: t.to_owned(),
                artist: trimmed_or_empty_string(artist),
                album: trimmed_or_empty_string(album),
                bundle_id: b,
                playing,
            },
        )
    }

    /// The entry rendered while nothing plays.
    pub fn placeholder() -> (res: Self)
        ensures
            res@ == placeholder_spec(),
    {
        Track {
            title: String::from_str("No player available"),
            artist: String::new(),
            album: String::new(),
            bundle_id: String::new(),
            playing: false,
        }
    }

    pub fn changed(&self, other: &Self) -> (res: bool)
        ensures
            res == (self@ != other@),
    {
        !(self == other)
    }

    pub fn label(&self, sep: &str) -> (res: String)
        ensures
            res@ == label_spec(self@, sep@),
    {
        if self.artist.as_str().is_empty() {
            return self.title.clone();
        }
        let mut out = self.title.clone();
        out.append(sep);
        out.append(self.artist.as_str());
        out
    }
}


/// What a snapshot built from raw fields holds: there is one exactly when
/// the title, trimmed, is not empty; its title, artist and album are the
/// trimmed fields (empty when absent), its bundle id is the one given (empty
/// when absent), and it is playing exactly when the caller says so,
/// whatever the other fields are.
pub proof fn from_parts_keeps_what_it_is_given(
    title: Option<Seq<char>>,
    artist: Option<Seq<char>>,
    album: Option<Seq<char>>,
    bundle_id: Option<Seq<char>>,
    playing: bool,
)
    ensures
        from_parts_spec(title, artist, album, bundle_id, playing) is Some <==> (title is Some
            && trim_seq(title->0).len() > 0),
        from_parts_spec(title, artist, album, bundle_id, playing) matches Some(t) ==> {
            &&& t.playing == playing
            &&& t.title == trim_seq(title->0)
            &&& t.artist == (if artist is Some {
                trim_seq(artist->0)
            } else {
                Seq::empty()
            })
            &&& t.album == (if album is Some {
                trim_seq(album->0)
            } else {
                Seq::empty()
            })
            &&& t.bundle_id == (if bundle_id is Some {
                bundle_id->0
            } else {
                Seq::empty()
            })
        },
{
}

/// The bar label: the title, followed by the separator and the artist only
/// when there is an artist; so it starts with the title, and its length is
/// that of the title plus, with an artist, separator and artist.
pub proof fn label_joins_with_the_separator(t: TrackView, sep: Seq<char>)
    ensures
        label_spec(t, sep).subrange(0, t.title.len() as int) == t.title,
        t.artist.len() == 0 ==> label_spec(t, sep) == t.title,
        t.artist.len() > 0 ==> label_spec(t, sep).subrange(
            t.title.len() as int,
            (t.title.len() + sep.len()) as int,
        ) == sep,
        t.artist.len() > 0 ==> label_spec(t, sep).subrange(
            (t.title.len() + sep.len()) as int,
            label_spec(t, sep).len() as int,
        ) == t.artist,
        label_spec(t, sep).len() == t.title.len() + if t.artist.len() > 0 {
            sep.len() + t.artist.len()
        } else {
            0
        },
{
    let l = label_spec(t, sep);
    assert(l.subrange(0, t.title.len() as int) =~= t.title);
    if t.artist.len() > 0 {
        assert(l.subrange(t.title.len() as int, (t.title.len() + sep.len()) as int) =~= sep);
        assert(l.subrange((t.title.len() + sep.len()) as int, l.len() as int) =~= t.artist);
    }
}

} // verus!
