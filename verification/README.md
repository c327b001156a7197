# herdr-progress

Progress of an agent's tasks: the agent reports how far it has come, and Herdr's sidebar shows it.

The library under `src/` is written in Verus. It holds what is decided and computed: tasks and their
generations, bindings of agents, what is shown and sent, the edits of the sidebar's and the agent's
configuration, the identity of an endpoint and of an agent's launch, and the steps of setting the
plugin up. Every function states what it gives in its contract, and the `*_laws` modules state what
holds of several of them together.

The program under `app/` is ordinary Rust. It reads the environment, the files and the database, runs
the programs, and hands what they say to the library.

| Modules | What they hold |
| --- | --- |
| `state`, `state_laws`, `display` | tasks, bindings, tokens and the summary line |
| `hooks` | the events of the agent and what it is told at them |
| `publisher` | what is published, when, and how often it is tried |
| `runtime`, `runtime_laws`, `process` | endpoints, panes, processes, and who runs where |
| `sidebar`, `sidebar_laws`, `toml` | the progress row in the sidebar's TOML |
| `hook_config`, `hook_laws`, `jsonc` | the hooks in the agent's JSON |
| `setup`, `install`, `paths` | which files are edited, in which order, and how they are restored |
| `command` | what is asked for on the command line |
| `json`, `number`, `text`, `tree`, `shell` | values, numbers and texts |

The items that are believed rather than proved stand for calls into other crates and the standard
library. Each has a doc comment that names the call and says what is claimed of it.
