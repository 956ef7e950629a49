# Symphony

Symphony turns an issue tracker (Linear) into a control plane for long-running
coding agents. It polls the tracker, gives each active issue an agent in a
workspace of its own, stops agents that stall or whose issue is over, and retries
what failed.

The library under `src/` holds the decisions and is verified with
[Verus](https://github.com/verus-lang/verus). The program under `app/` holds what
touches the world: the command line, files, processes, sockets and tasks. It
performs what the library asks for and reports back what happened. It also hands
templates that the library does not vouch for to `liquid` itself.

| Module | Holds |
|--------|-------|
| `text`, `json`, `table` | Text, JSON values and small maps, each described over sequences of characters |
| `types` | Issues, sessions, retries and the runtime state |
| `environment`, `config`, `workflow` | References to the environment, the typed configuration, the workflow file and its reload |
| `tame`, `template` | Which prompt templates can be rendered safely, their variables and their rendering |
| `workspace` | The life of a workspace and its hooks, step by step |
| `tracker` | What is asked of Linear, what its replies mean, and a tracker in memory |
| `protocol`, `agent_runner`, `mock_agent` | The messages to and from an agent, and a run as a state machine |
| `orchestrator`, `reconcile`, `dispatch`, `worker` | Which issues are taken up, retried, stopped and finished |
| `poll` | One tick of the polling loop, from the word on the running issues to the last candidate |
| `http`, `setup`, `logging` | What is reported, and how the parts are put together |

The functions of the library that need a condition to hold say so in `requires`;
beside them stand functions that test it (`can_exit`, `can_finish`, `can_step`,
`is_tame_template`), which the program calls first.

What the proofs take on trust is marked with `external_body` or
`assume_specification`: calls into `serde_json`, `serde_yaml`, `liquid`, `chrono`
and a few functions of the standard library. The comment above each says what is
claimed of it.
