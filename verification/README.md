# aionui-ai-agent

The rules by which an agent runtime deals with its agents, as a library whose every function is
verified with Verus: what it returns and what it changes stands in its contract, and the laws that
hold between functions stand beside them as proof functions.

## Layout

- `src/` is the library.
  - `permission_authority`, `classifier`, `permission_request`, `permission_event`,
    `permission_operation`, `permission_router`: what an agent may do, who has to agree, and how an
    answer finds its way back.
  - `session`, `agent_reconcile`, `identifiers`, `session_context`: the state of a session and the
    steps that bring it to what the user wants.
  - `async_completion`, `completion_route`, `client_extensions`, `read_preview`, `read_terminal`,
    `redaction`, `correction_boundary`, `prompt_admission`, `prompt_route`, `wire`, `acp`: the
    connection to an agent, the requests that it makes of its client, and what fences them.
  - `process_registry`, `project_runtime_fence`: the processes and the projects that agents work in.
  - `json`, `text`, `text_map`, `error`: what the others are built from.
  - `outside` holds calls into other crates; a few more stand where they are used. Their contracts
    are believed.
- `tests/` runs the library on concrete values.
- `app/` is ordinary Rust around the library: transport, channels, locks, timers, files, processes.

## How to read it

Every type has a model, a ghost value that says what it holds. The methods of a model say what an
operation does; the executable method's contract says that its view changes by exactly that.
Whatever depends on the world outside, such as the time, whether a message was delivered or whether
a path leads out of a folder, is an argument, so that the contract covers every case of it.
