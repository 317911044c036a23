# synthia

Synthia is a terminal coding assistant: it talks to an OpenAI-compatible
model, streams its answer, and runs tools (shell, read, write, edit, grep,
glob, git, web fetch, todo lists) on the model's behalf, asking the user
before anything that changes the machine.

## Layout

- `src/` is the library, verified with Verus. It holds the decisions of the
  assistant as functions from plain values to plain values, each with a
  contract over mathematical models (`Seq`, `Map`, `Multiset`, `int`):
  - permissions: pattern matching, the allow/deny rules, the patterns that
    "don't ask again" records (`permission_manager`, `permission_config`);
  - text: line wrapping, the input line editor, markdown rendering, the
    previews shown while streaming and before an approval (`ui_text`,
    `input`, `markdown`, `display`);
  - the model protocol: the request body, the parsing of replies and of the
    server-sent event stream, the robust JSON reading of tool arguments
    (`wire`, `sse`, `json_parser`);
  - the agent's turn: when it goes on, stops or gives up, which tool calls
    a reply holds and the message and preview each call's result becomes;
    which tool results are served from and kept in the cache; what a new or
    loaded session does to the conversation (`agent`, `registry`,
    `context`);
  - the tools' arguments and results (`tools`, `commands`, `webfetch`,
    `todo`, `cache`), sessions, project names and configuration defaults.

  Calls into other crates (serde_json, regex, glob, url, lru, similar,
  chrono, rand, reqwest's header checks) stand behind small wrappers whose
  contracts say what those crates document. Public proof functions named
  `law_*` state properties that hold across calls, such as that a denied
  pattern always wins over an allowed one, or that wrapping never loses a
  word.

- `tests/` runs the library on concrete values.

- `app/` is the program around the library: the terminal interface, the HTTP
  client, file and process I/O, and the asynchronous agent loop (running
  the tool calls in parallel and recording their results in call order).
  It hands the library plain values and acts on what comes back.
