# cs2_dumper

A Counter-Strike 2 SDK dumper whose logic is verified with Verus: the text of
every generated file (C++ class and enum headers, console variable header,
inheritance graph, reports, resource listing) is specified exactly and proved,
and so are the decisions of the console variable and game event walks (as
step functions that the process-facing code drives), the rules by which schema
records are built (type sizes, skipped entries, names), and the code pattern
searches. The schema walk's own memory reads are not included.

Layout:

- `src/text.rs` - number formatting (`{:#X}`-style hexadecimal, decimal) and
  character-level helpers (replace, trim, split at a character).
- `src/strmap.rs` - `StrMap`, an ordered map keyed by strings (the order of
  `String`), with the laws of its insertion and lookup.
- `src/pe.rs` - code pattern scanning over PE images through `pelite`, with
  the conditions under which pelite can scan an image and run a pattern.
- `src/analysis/` - the collected records (console variables, game events,
  resources, schema classes and enums) and the walk decisions.
- `src/output/` - the renderers.
- `app/` - the process-facing side: memflow reads, serde copies of the
  records, and file output.
- `tests/` - tests on concrete values, including a small PE image built in
  memory for the pattern scans.
