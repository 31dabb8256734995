# ttml_processor

Parsing and generation of TTML lyric files in the dialects of Apple Music and AMLL, with the
logic verified by Verus.

## Layout

- `src/xml.rs` — the events that `quick_xml` reads from a document, as plain values.
- `src/parser/` — from events to a `TTMLResult`: head (metadata, agents, translations and
  transliterations), body (blocks, lines, spans, ruby, background vocals). Each function is
  specified by a spec function over the event sequence; `laws.rs` holds what reading keeps
  (each `<p>` gives one line, in order, carrying the song part and index of its block).
- `src/generator/` — from a `TTMLResult` to a sequence of XML events, rendered by the
  `quick_xml` writer. `laws.rs` holds what line-timed output keeps and where translations go.
- `src/amll/` — conversions to and from the simpler AMLL structures.
- `src/timestamp.rs`, `src/utils.rs`, `src/text.rs` — timestamps and text normalisation,
  with their laws (round trip of timestamps, idempotent normalisation).
- `src/maps.rs` — the `IndexMap`s of the metadata, behind specified wrappers.
- `app/` — the WebAssembly interface: serde copies of the data types and the exported
  functions.
