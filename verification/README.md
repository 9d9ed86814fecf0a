# rust_to_ts

Converters between Rust, TypeScript and BPMN process XML, written in Verus:
each converter states in its contract what it produces, over a small shared
program model (`ast`), and the properties that span several converters are
proved as lemmas.

## Layout

- `src/` — the verified library.
  - `ast` — the shared program model (modules, type declarations, functions).
  - `ts_ast`, `rust_ast` — TypeScript and Rust text of a module; the line-based
    TypeScript reader; `ts_round_trip` proves that the reader gives back the
    interfaces and signatures the writer printed, and `text_laws` what the
    module texts depend on.
  - `compare` — the report comparing the module read from Rust with the one
    read from TypeScript.
  - `rust_syntax`, `converter` — the parts of parsed Rust that the converters
    read, and the statement-by-statement Rust-to-TypeScript converter.
  - `bpmn/` — the BPMN process model, its XML writer (`emit`) and reader
    (`parse`, over the events of `quick_xml`), the conversions between
    processes and modules or Rust sources, and the laws: `laws` (module to
    process and back, the `name:ty;...` list form, hexadecimal) and
    `xml_laws` (what the reader makes of the elements the writer emits).
  - `neural`, `rng` — the neural-network grid and the seeded generators of
    the example (integer outputs).
  - `tester`, `tagging`, `ts_template`, `editor` — the decisions of the
    example tester (including the Deno wrapper, which hands the TypeScript
    side the seed and generator the Rust side takes), the tagging of known
    example functions, template strings, and the editor backend's command
    line.
- `app/` — the command-line program: file, process and network handling,
  lowering `syn` syntax trees into `rust_syntax`, floating-point sampling,
  and the BPMN editor's HTTP backend.
- `tests/` — tests of the library on concrete values.
