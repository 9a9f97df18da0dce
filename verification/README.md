# sketchybar_now_playing

Show what is playing on macOS in SketchyBar.

`src/` is the verified library:

* `track`: the `Track` snapshot, `from_parts` (trimming, mandatory title),
  `label`, `changed` and the idle placeholder.
* `icons`: built-in glyphs per player, user overrides (exact key first, then
  a key contained in the bundle id), the play/pause glyph.
* `config`: defaults and the merge of a parsed config file; the icon
  overrides are a map kept as a list, one entry per key.
* `sketchybar`: the argument lists of `sketchybar --trigger` and
  `sketchybar --set` for the main item and its control siblings.
* `feed`: change detection for `stream` and `daemon`, with the whole run
  of told snapshots recorded as ghost state.
* `media`: the snapshot built from a Now Playing report, and which
  adapter helpers are this process's children.
* `cli`: command-line types, the text of `get`, media control outcomes.
* `lock`: lock file names and the protocol that takes a feed's lock.
* `text`: string facts (substring, suffix, white space, trimming, words,
  decimal numbers) and the string operations, proved against them.

`app/` is the program: clap parsing, config file reading and TOML parsing,
the MediaRemote client, spawning `sketchybar`, the event loops, JSON output
and the lock file operations.
