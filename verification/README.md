# axon

Axon is a command-line agent: it sends the conversation to an
OpenAI-compatible chat endpoint, runs the tools ("atoms") the model asks for,
feeds their results back, and keeps the conversation in a JSONL memory file.

Layout:

- `src/` — the library, verified with Verus:
  - `config.rs` — configuration tree, validation, which atoms are enabled;
  - `memory.rs` — messages and tool calls, the history and its context
    window, the JSONL record format (with its round-trip law);
  - `atoms.rs` — the atom registry, parameter schemas and tool definitions,
    argument checks, the built-in atoms (shell, file read/write, image OCR,
    grep, glob) and the registries of them, the image-to-Base64 step of OCR;
  - `llm.rs` — client settings, chat requests, how replies are judged;
  - `executor.rs` — the decisions of one turn (`ToolLoop`) and of each tool
    call;
  - `skills.rs` — skill manifests, front matter, the skill registry;
  - `search.rs` — glob matching of paths and line search, for the `glob`
    and `grep` atoms;
  - `cli.rs` — the command line as data, overrides, persona, interactive
    input;
  - `text.rs` — whitespace, trimming, string building and line splitting;
  - `foreign.rs` — std types carried through opaquely.
- `app/` — the program: argument parsing (clap), files, processes, HTTP,
  the async runtime, and the serde forms of the library's data.
- `tests/` — tests of the library.
