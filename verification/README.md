# thumbrella

The verified core of a thumbnail server. Every item under `src/` is checked by
Verus against its contract; `app/` is the server program around it.

## What it does

A request names a source by its URL and gets a small JPEG back, every time: a
thumbnail where one can be made, else the placeholder of the source's category.
On the way the pipeline asks its caches, opens the source, inspects its first
bytes, tries shortcuts that read little of the file (embedded previews, partial
decodes, archive members, cover art), and only then renders it, here or at a
higher tier.

## Layout

- `src/cook.rs`, `src/pipeline.rs`, `src/outcome.rs`, `src/token.rs`: the state of
  one thumbnail, the steps that it goes through and its cache token.
- `src/fetch.rs`, `src/fetch_guard.rs`, `src/address.rs`, `src/local_path.rs`,
  `src/connect.rs`, `src/handoff.rs`: sources, back-off, URLs, paths and targets.
- `src/inspect.rs`, `src/media.rs`, `src/dispatch.rs`, `src/formats.rs`,
  `src/table_laws.rs`: what a file is, which tier renders it, and how the tables
  of formats agree.
- `src/shortcut/`: EXIF, TIFF, ZIP and audio parsers and the shortcuts on them.
- `src/raster.rs`, `src/decode.rs`, `src/fit.rs`, `src/deliver.rs`: pixels, from
  the decoder to the encoded thumbnail.
- `src/cache/`: cache specs, the in-memory cache, single flights and the lookup.
- `src/tier2/`, `src/tier3/`: the renderers' decisions, tool calls and sandbox.
- `src/routes.rs`, `src/cli.rs`, `src/config.rs`, `src/diag.rs`, `src/pretty.rs`:
  requests, commands, configuration and the diagnostic report.
- `src/json.rs`, `src/text.rs`, `src/text_map.rs`, `src/bytes.rs`, `src/number.rs`,
  `src/double.rs`: JSON, texts, bytes and numbers.
- `tests/`: the library from outside, with the real decoders and encoders.
- `app/`: files, network, other programs and floating point.

## How to read the contracts

Each executable function states its result over a specification function or a
view that stands near it. Proof functions named `law_*` state what holds across
functions. What the library takes on trust of other crates stands in functions
marked `#[verifier::external_body]`; their comments name the function that is
called and what is claimed of it.
