# sapling

A static site generator: markdown documents with a YAML front matter are
rendered through tera templates into a `static/` directory, with forward and
reverse indexes over front-matter fields, RSS feeds, bundled CSS and an
optional live-reloading server.

## Layout

- `src/` is the verified library (Verus). It holds the pipeline's decisions:
  reading a document's name and front matter, the YAML model and its lookups,
  the forward and reverse indexes, where each page is served and with which
  template, the listing pages of the reverse index, the RSS feeds, the
  settings lookups and the bootstrap plan. Calls into comrak, chrono,
  rss-gen, serde_yaml (reading front matter and the settings file) and std's
  `Path::file_name` stand behind small trusted wrappers whose contracts are
  stated in their doc comments.
- `app/` is the program around it: the command line, reading and writing
  files, template rendering with tera, CSS bundling with lightningcss, the
  axum server and the file watcher.
- `tests/` runs the library on concrete inputs.

## Dependencies

`parcel_selectors` is not used directly: it is pinned to `0.28.1` because
lightningcss `1.0.0-alpha.65` otherwise resolves `parcel_selectors 0.28.3`,
which is built on a newer cssparser than lightningcss and does not compile
with it.
