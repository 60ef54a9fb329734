# wasm_parser

A WebAssembly binary parser and encoder with an editable AST, written in
Verus: the parsing, encoding and editing logic is verified against
mathematical models of the binary format.

## Layout

- `src/` — the verified library.
  - `leb128.rs`: LEB128 integers; encodings read back to their values.
  - `types.rs`, `instruction.rs`, `ast.rs`, `value.rs`: the AST and its models.
  - `decode.rs`: the module decoder, proved equal to the recursive grammar
    `sp_parse`; `decode_instructions.rs`: instruction decoders that keep an
    explicit stack of open blocks, proved equal to recursive specifications.
  - `encode.rs`: the module encoder, proved equal to `enc_module`.
  - `text.rs`: numbers in decimal and the text of instructions, for the
    messages of errors.
  - `roundtrip.rs`: parsing an encoded module gives the module back, for
    every module that `encodable` admits: each instruction has an encoding
    (`end` aside, which would close its expression), element segments hold
    function references, imports and exports have one of the four known
    kinds, and every count, name, body and section fits the 32-bit sizes of
    the format.
  - `parser.rs`: the high-level API and the editing operations.
  - `summary.rs`: the reports of a module that the tools print and send.
- `tests/` — tests run against the compiled library.
- `app/` — the command line tool, the web service, the static site, the
  browser bindings and the floating point helpers.
