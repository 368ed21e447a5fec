# webxr_graph

A knowledge-graph server for WebXR clients, built on Logseq markdown pages
kept in a GitHub repository.

- `src/` is the verified library (Verus): compression of WebSocket payloads,
  WAV header checks and TTS responses, markdown block splitting and context
  windows, Perplexity request and rewrite logic, file selection, reference
  counting and SHA-1 hex digests, simulation modes, GitHub commit texts,
  RAGFlow answer parsing, GitHub replies and update bodies, the OpenAI
  realtime URL and event handling, and the speech session state machine
  with its law over a queue of commands. Calls into
  outside crates (miniz_oxide, base64, serde_json, pulldown-cmark, regex,
  sha1, base64) stand behind small trusted wrappers whose contracts are stated in
  their doc comments.
- `app/` is the server around it: actix-web routes, WebSocket sessions,
  GitHub, RAGFlow, Perplexity and OpenAI clients, settings and file I/O.
- `tests/` runs the library on concrete values.
