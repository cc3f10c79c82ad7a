# oxytools

A toolbox for documents, PDF files, videos and their metadata, written in
Verus: the rules of each tool are executable Rust functions whose contracts
Verus proves.

- `src/` is the library. Each module holds one family of rules: file
  formats and conversions (`doc`, `conversion`, `markdown`, `xml`, `blocs`,
  `ecriture`, `mise_en_page`), PDF page operations (`pdf`, `fusion`,
  `pages`), batch renaming (`rename`), video encoding choices (`video`),
  Matroska tags and NFO files (`tag`, `nfo`), TMDB scraping (`tmdb`,
  `scrap`, `images`), settings (`reglages`, `tools`), jobs (`taches`,
  `travail`), PDF and ZIP files as bytes (`fichiers`, and `fusion` for
  the merge), sorted file lists (`tri`) and the small helpers they share
  (`texte`, `chemin`). Calls into outside crates
  (regex, pulldown-cmark, html2md, quick-xml, sha2, which, serde_json,
  lopdf, zip) stand behind a few trusted wrappers whose contracts say what
  the library relies on.
- `app/` is the command-line program around the library: it reads and
  writes files, runs ffmpeg and mkvpropedit and talks to TMDB. It also
  applies to a loaded PDF, with lopdf, what the library decides for the
  page operations that it does not do on bytes itself (split, protect,
  number, sign), and draws the text, watermark, crop and
  annotation boxes whose geometry is in floating point.
- `tests/` runs the library on concrete values.
