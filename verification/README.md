# astrcode

The verified core of the AstrCode agent runtime, written in Verus.

`src/` is the library; every function in it carries a contract that Verus
proves, except the small `external_body` functions that make the calls
into std, serde_json, base64, tokio, dashmap, image and http: their contracts
restate what those libraries document and are trusted, not proved. It
covers:

- `prompt`, `prompt_files`: the system prompt, built from identity, rules,
  tools and extension contributions in a fixed section order.
- `deferred_tools`: which tools a provider sees, discovery-based activation,
  and the per-turn tool state.
- `tool_result`, `tool_artifacts`, `background`: tool results and errors,
  stored result files and their paging, background task registries.
- `turn_scheduler`, `stale_repair`, `session_operations`, `session_fork`,
  `hooks`: input queues between turns, scheduling decisions, repair of
  sessions left mid-turn, access and nesting rules of child sessions, fork
  points, and extension hook dispatch.
- `extension`, `permissions`, `s6r`, `extension_host`: the extension
  protocol vocabulary, capability checks, emitted events, and WASM host
  limits.
- `mcp_names`, `mcp_http`: MCP tool names, request headers and HTTP/SSE
  response handling.
- `http_auth`, `models`: the server's bearer check, CORS origins and model
  listing.
- `acp_bridge`: the Agent Client Protocol bridge: session updates, prompt
  text, stop reasons and the prompts waiting on turns.
- `small_llm`: the chat messages and reply of the `small_llm.chat` host
  capability.
- `tui_input`, `tui_layout`: the terminal client's key bindings, slash
  commands, submission rules and bottom-panel geometry.
- `cli`, `image_processing`, `user_prompt`, `memory`, `version`: client-side
  helpers, prompt images, user prompts, memory extension settings and
  protocol version negotiation.
- `text`, `utf8_len`, `json_value`, `json`, `keyed`: the string, UTF-8 and
  JSON models the contracts are stated over, and facts about registries
  kept as sequences of keyed entries.

`app/` is a small command-line front end that does the file and environment
I/O and calls the library. `tests/` exercises the library on concrete
values.
