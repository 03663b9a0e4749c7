# llmos

An agent harness: chat sessions with tool-aware history windowing, a tool registry
and authorization policy, prompt assembly, development chat models, and the
model/tool turn loop, served by a daemon over HTTP.

## Layout

- `src/` — the library, written in Verus. Verus proves every function body against
  its `requires` / `ensures` contract (some constructors, `Default` impls and trait
  methods state nothing beyond their types). The trusted wrappers around outside
  crates are believed, not proved. Highlights:
  - `session`: the transcript, the legal tool start (no tool result without its
    call in the window) and the model history window, which always starts there;
  - `tools`: the registry, modelled as its sorted names and the tool held under each
    name; running a name hands back what that tool answers;
  - `agent_loop`: the turn loop, generic over the chat model: `apply_model_answer`
    (what one model answer does) and `turn_loop_ran`, which ties each answer to a call
    of the model's `chat` on the context built for it;
  - `harness`: a whole streamed turn (`run_turn_events`): the events it sends, their
    numbering, and the status it ends with;
  - `laws`: properties that span several functions, as proof functions.
  Calls into `serde_json` and `cron` go through small trusted wrappers in `json`
  and `scheduler`, each documented with what it claims.
- `app/` — the program around the library: the daemon (`axum` HTTP, Tokio tasks,
  background jobs, cron runner, file and process I/O for the tools) and the
  command-line client (`reqwest`).
- `tests/` — tests of the library on concrete values.
