# mdbook_applehelp

An mdBook backend that renders a book as a macOS Apple Help bundle
(`<folder>.help`), with its `Info.plist`, one HTML page per chapter, a
shared stylesheet and, on macOS, the `hiutil` search indexes.

The logic is written in Verus and proved against its contracts:

- `src/config.rs`: resolving `[output.applehelp]` against `[book]`, the
  required keys, the defaults, the index-format values and the error texts.
- `src/html.rs`: link rewriting (`.md`/`.markdown` to `.html`, autolinks
  and e-mail links kept), HTML escaping and its laws, and the page
  template. Markdown is rendered by `pulldown-cmark`, whose output is not
  modelled: each link or image destination it reports is handed to the
  proved rewriter, but that the event stream is taken apart and put back
  together correctly rests on small unverified conversions.
- `src/paths.rs`, `src/walk.rs`: where each chapter lands in the bundle,
  the landing page, anchors and stylesheet paths, and the full list of pages
  of a book.
- `src/bundle.rs`: bundle names and the `Info.plist` dictionary.
- `src/index.rs`: the `hiutil` runs and the message shown where `hiutil`
  is unavailable.
- `src/text.rs`: character-level helpers.

`app/` holds the executable: argument handling, reading the render context
(the serde parse of `[output.applehelp]`), writing files and running
`hiutil`. `tests/` exercises the library with the
real outside crates linked.
