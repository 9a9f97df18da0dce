//! Bar configuration: built-in defaults and the merge of a config file.
use vstd::prelude::*;

use crate::icons::pairs_view;

verus! {

#[derive(Debug, Clone)]
pub struct Config {
    pub separator: String,
    pub hide_output: bool,
    pub max_chars: usize,
    /// (bundle id pattern, glyph) pairs, one per key: a map from bundle id
    /// pattern to glyph, kept in a list.
    pub icon_overrides: Vec<(String, String)>,
    /// Fixed glyph for all players. Empty counts as unset.
    pub static_icon: Option<String>,
}

/// The mathematical value of a [`Config`].
pub struct ConfigView {
    pub separator: Seq<char>,
    pub hide_output: bool,
    pub max_chars: usize,
    pub icon_overrides: Seq<(Seq<char>, Seq<char>)>,
    pub static_icon: Option<Seq<char>>,
}

/// The characters of an optional owned string.
pub open spec fn opt_string_view(s: Option<String>) -> Option<Seq<char>> {
    match s {
        Some(t) => Some(t@),
        None => None,
    }
}

impl View for Config {
    type V = ConfigView;

    open spec fn view(&self) -> ConfigView {
        ConfigView {
            separator: self.separator@,
            hide_output: self.hide_output,
            max_chars: self.max_chars,
            icon_overrides: pairs_view(self.icon_overrides@),
            static_icon: opt_string_view(self.static_icon),
        }
    }
}

/// The built-in configuration.
pub open spec fn default_config() -> ConfigView {
    ConfigView {
        separator: " - "@,
        hide_output: false,
        max_chars: 20,
        icon_overrides: Seq::empty(),
        static_icon: None,
    }
}

impl Default for Config {
    fn default() -> (cfg: Self)
        ensures
            cfg@ == default_config(),
    {
        let cfg = Config {
            separator: String::from_str(" - "),
            hide_output: false,
            max_chars: 20,
            icon_overrides: Vec::new(),
            static_icon: None,
        };
        assert(cfg@.icon_overrides =~= Seq::<(Seq<char>, Seq<char>)>::empty());
        cfg
    }
}

/// Some entry has key `key`.
pub open spec fn has_key(overrides: Seq<(Seq<char>, Seq<char>)>, key: Seq<char>) -> bool {
    exists|i: int| 0 <= i < overrides.len() && #[trigger] overrides[i].0 == key
}

/// No key occurs twice: the list is a map.
pub open spec fn keys_distinct(overrides: Seq<(Seq<char>, Seq<char>)>) -> bool {
    forall|i: int, j: int|
        0 <= i < j < overrides.len() ==> #[trigger] overrides[i].0 != #[trigger] overrides[j].0
}

/// The overrides after setting `key` to `glyph`, as inserting into a map
/// does: an existing entry for the key takes the new glyph, else the entry
/// is added.
pub open spec fn insert_override_spec(
    overrides: Seq<(Seq<char>, Seq<char>)>,
    key: Seq<char>,
    glyph: Seq<char>,
) -> Seq<(Seq<char>, Seq<char>)> {
    if has_key(overrides, key) {
        overrides.map_values(
            |p: (Seq<char>, Seq<char>)|
                if p.0 == key {
                    (key, glyph)
                } else {
                    p
                },
        )
    } else {
        overrides.push((key, glyph))
    }
}

/// The overrides a table of entries gives, inserted in order.
pub open spec fn overrides_from(entries: Seq<(Seq<char>, Seq<char>)>) -> Seq<(Seq<char>, Seq<char>)>
    decreases entries.len(),
{
    if entries.len() == 0 {
        Seq::empty()
    } else {
        insert_override_spec(
            overrides_from(entries.drop_last()),
            entries.last().0,
            entries.last().1,
        )
    }
}

/// Sets `key` to `glyph` in the overrides.
pub fn insert_override(overrides: &mut Vec<(String, String)>, key: String, glyph: String)
    ensures
        pairs_view(final(overrides)@) == insert_override_spec(
            pairs_view(old(overrides)@),
            key@,
            glyph@,
        ),
{
    let ghost before = pairs_view(overrides@);
    let n = overrides.len();
    let mut found = false;
    let mut i: usize = 0;
    while i < n
        invariant
            n == overrides@.len(),
            n == before.len(),
            0 <= i <= n,
            found == exists|j: int| 0 <= j < i && #[trigger] before[j].0 == key@,
            forall|j: int|
                0 <= j < n ==> #[trigger] pairs_view(overrides@)[j] == if j < i && before[j].0
                    == key@ {
                    (key@, glyph@)
                } else {
                    before[j]
                },
        decreases n - i,
    {
        assert(pairs_view(overrides@)[i as int] == before[i as int]);
        assert(overrides@[i as int].0@ == before[i as int].0);
        if overrides[i].0 == key {
            assert(before[i as int].0 == key@);
            let ghost prev = pairs_view(overrides@);
            overrides.set(i, (key.clone(), glyph.clone()));
            assert forall|j: int| 0 <= j < n implies #[trigger] pairs_view(overrides@)[j] == if j
                < i + 1 && before[j].0 == key@ {
                (key@, glyph@)
            } else {
                before[j]
            } by {
                if j != i {
                    assert(pairs_view(overrides@)[j] == prev[j]);
                }
            }
            found = true;
        } else {
            assert(before[i as int].0 != key@);
        }
        i = i + 1;
    }
    if found {
        assert(has_key(before, key@));
        assert(pairs_view(overrides@) =~= insert_override_spec(before, key@, glyph@));
    } else {
        assert(!has_key(before, key@));
        assert(pairs_view(overrides@) =~= before);
        overrides.push((key, glyph));
        assert(pairs_view(overrides@) =~= insert_override_spec(before, key@, glyph@));
    }
}

/// What a config file holds; every field may be left out.
#[derive(Debug, Clone)]
pub struct ConfigFile {
    pub separator: Option<String>,
    pub hide_output: Option<bool>,
    pub max_chars: Option<usize>,
    pub static_icon: Option<String>,
    /// The `[icons]` table as (bundle id pattern, glyph) entries; a later
    /// entry for a key replaces an earlier one.
    pub icons: Vec<(String, String)>,
}

/// The configuration a file gives: each field it sets replaces the
/// default, an empty `static_icon` counts as unset, and the `[icons]`
/// table becomes the overrides, one per key.
pub open spec fn merge_spec(file: ConfigFile) -> ConfigView {
    ConfigView {
        separator: match file.separator {
            Some(s) => s@,
            None => default_config().separator,
        },
        hide_output: match file.hide_output {
            Some(h) => h,
            None => default_config().hide_output,
        },
        max_chars: match file.max_chars {
            Some(m) => m,
            None => default_config().max_chars,
        },
        icon_overrides: overrides_from(pairs_view(file.icons@)),
        static_icon: match file.static_icon {
            Some(g) if g@.len() > 0 => Some(g@),
            _ => None,
        },
    }
}

impl Config {
    /// Defaults overridden by what the file sets.
    pub fn from_file(file: ConfigFile) -> (cfg: Self)
        ensures
            cfg@ == merge_spec(file),
            keys_distinct(cfg@.icon_overrides),
    {
        let ghost file0 = file;
        let mut cfg = Self::default();
        if let Some(sep) = file.separator {
            cfg.separator = sep;
        }
        if let Some(hide) = file.hide_output {
            cfg.hide_output = hide;
        }
        if let Some(max) = file.max_chars {
            cfg.max_chars = max;
        }
        if let Some(glyph) = file.static_icon {
            if !glyph.as_str().is_empty() {
                cfg.static_icon = Some(glyph);
            }
        }
        let mut overrides: Vec<(String, String)> = Vec::new();
        let n = file.icons.len();
        let mut i: usize = 0;
        while i < n
            invariant
                n == file.icons@.len(),
                0 <= i <= n,
                pairs_view(overrides@) == overrides_from(pairs_view(file.icons@).take(i as int)),
            decreases n - i,
        {
            let key = file.icons[i].0.clone();
            let glyph = file.icons[i].1.clone();
            insert_override(&mut overrides, key, glyph);
            let ghost entries = pairs_view(file.icons@);
            assert(entries.take(i + 1).drop_last() =~= entries.take(i as int));
            assert(entries.take(i + 1).last() == entries[i as int]);
            i = i + 1;
        }
        assert(pairs_view(file.icons@).take(n as int) =~= pairs_view(file.icons@));
        cfg.icon_overrides = overrides;
        assert(cfg@ == merge_spec(file0));
        proof {
            overrides_are_a_map(pairs_view(file0.icons@));
        }
        cfg
    }
}


/// A config file that sets `static_icon` to the empty string configures
/// the same as one that leaves it out.
pub proof fn empty_static_icon_counts_as_unset(file: ConfigFile, empty: String)
    requires
        empty@.len() == 0,
        file.static_icon == Some(empty),
    ensures
        merge_spec(file) == merge_spec(ConfigFile { static_icon: None, ..file }),
{
}


proof fn insert_keeps_keys_distinct(
    overrides: Seq<(Seq<char>, Seq<char>)>,
    key: Seq<char>,
    glyph: Seq<char>,
)
    requires
        keys_distinct(overrides),
    ensures
        keys_distinct(insert_override_spec(overrides, key, glyph)),
{
    let r = insert_override_spec(overrides, key, glyph);
    if has_key(overrides, key) {
        assert forall|i: int, j: int| 0 <= i < j < r.len() implies #[trigger] r[i].0
            != #[trigger] r[j].0 by {
            assert(r[i].0 == overrides[i].0);
            assert(r[j].0 == overrides[j].0);
        }
    } else {
        assert forall|i: int, j: int| 0 <= i < j < r.len() implies #[trigger] r[i].0
            != #[trigger] r[j].0 by {
            if j == overrides.len() {
                assert(r[i].0 == overrides[i].0);
            }
        }
    }
}

/// Whatever a config file's table holds, the overrides it gives have each
/// key once: they form a map, as the table does.
pub proof fn overrides_are_a_map(entries: Seq<(Seq<char>, Seq<char>)>)
    ensures
        keys_distinct(overrides_from(entries)),
    decreases entries.len(),
{
    if entries.len() > 0 {
        overrides_are_a_map(entries.drop_last());
        insert_keeps_keys_distinct(
            overrides_from(entries.drop_last()),
            entries.last().0,
            entries.last().1,
        );
    }
}

/// A table that names each key once gives exactly its entries, in order.
pub proof fn distinct_entries_are_kept(entries: Seq<(Seq<char>, Seq<char>)>)
    requires
        keys_distinct(entries),
    ensures
        overrides_from(entries) == entries,
    decreases entries.len(),
{
    if entries.len() > 0 {
        let init = entries.drop_last();
        assert(keys_distinct(init)) by {
            assert forall|i: int, j: int| 0 <= i < j < init.len() implies #[trigger] init[i].0
                != #[trigger] init[j].0 by {
                assert(init[i] == entries[i] && init[j] == entries[j]);
            }
        }
        distinct_entries_are_kept(init);
        let last = entries.last();
        assert(!has_key(init, last.0)) by {
            if has_key(init, last.0) {
                let i = choose|i: int| 0 <= i < init.len() && #[trigger] init[i].0 == last.0;
                assert(entries[i].0 != entries[entries.len() - 1].0);
            }
        }
        assert(init.push(last) =~= entries);
    }
}

/// A later entry for a key replaces an earlier one: after setting a key,
/// the overrides hold it with the new glyph.
pub proof fn insert_sets_the_glyph(
    overrides: Seq<(Seq<char>, Seq<char>)>,
    key: Seq<char>,
    glyph: Seq<char>,
)
    ensures
        ({
            let r = insert_override_spec(overrides, key, glyph);
            &&& has_key(r, key)
            &&& forall|i: int| 0 <= i < r.len() && #[trigger] r[i].0 == key ==> r[i].1 == glyph
        }),
{
    let r = insert_override_spec(overrides, key, glyph);
    if has_key(overrides, key) {
        let i = choose|i: int| 0 <= i < overrides.len() && #[trigger] overrides[i].0 == key;
        assert(r[i].0 == key);
    } else {
        assert(r[overrides.len() as int].0 == key);
    }
}


/// A file's settings replace the defaults field by field: a field the file
/// sets is taken from it, and one it leaves out keeps its default, which is
/// the separator ` - `, output not hidden, 20 characters and no fixed glyph.
pub proof fn file_settings_replace_defaults(file: ConfigFile)
    ensures
        merge_spec(file).separator == (if file.separator is Some {
            file.separator->0@
        } else {
            " - "@
        }),
        merge_spec(file).hide_output == (file.hide_output is Some && file.hide_output->0),
        merge_spec(file).max_chars == (if file.max_chars is Some {
            file.max_chars->0
        } else {
            20
        }),
        file.static_icon is None ==> merge_spec(file).static_icon is None,
        file.static_icon is Some && file.static_icon->0@.len() > 0 ==> merge_spec(file).static_icon
            == Some(file.static_icon->0@),
{
}

} // verus!
