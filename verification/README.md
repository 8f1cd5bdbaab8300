# arkd-core

The logic of `arkd`, an MCP daemon that drives MaaAssistantArknights (MaaCore) on an
Android device or PlayCover, written in Verus: every function in `src/` carries a
contract that Verus proves.

- `src/` — the verified library: the task catalog and its schema checks, the
  configuration and its validation, the session's task queue and event log, the wait
  conditions, the battle diagnosis and the start-paused state machine, the PlayTools
  wire format, screen geometry, bearer-token authorization, path handling, and the
  JSON the tools answer with. Calls into outside crates (`image`, `indexmap`, `subtle`,
  `strsim`) and into std where vstd gives no contract stand behind small trusted
  wrappers, each documented with what it assumes.
- `tests/` — the library's tests.
- `app/` — the daemon around the library: the command line, configuration file and
  environment, the MCP server over HTTP, the MaaCore bindings, the PlayTools socket,
  and the floating-point image work (scaling, JPEG, HUD template matching).
