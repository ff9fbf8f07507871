# llm-tool

Verified core of a framework for LLM tools: the rules that decide what a
tool's output looks like when it reaches a model, and the protocol logic of
an MCP server, written in Verus with their contracts proved.

## Layout

- `src/truncation/` — middle-out truncation of oversized tool output with an
  optional spill sink; `laws.rs` holds the properties every truncation has
  (bounded output, reported elision, the failure notice in the marker).
- `src/quarantine.rs`, `src/neutralization.rs` — quarantine framing of
  untrusted output and neutralization of control tokens; the proof that the
  quarantined form is always quarantined, and that quarantining and
  neutralizing are idempotent.
- `src/uri_template.rs` — matching URIs against `{variable}` templates.
- `src/types/` — tool output and error values with metadata, prompt and
  resource values.
- `src/mcp/` — JSON-RPC vocabulary, method routing and the reply rules of the
  server.
- `src/attrs.rs`, `src/description.rs`, `src/template_syntax.rs` — the
  attribute and template rules the tool macros enforce.
- `src/registry.rs` — name-keyed registries and batch execution rules.
- `app/` — unverified plumbing: serde wire types, a line-oriented MCP server
  over tokio streams, and helpers that need serde or floating point.
- `tests/` — executable tests of the library.
