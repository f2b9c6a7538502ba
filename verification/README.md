# sbalite

A lightweight monitoring server for Spring Boot applications that expose Actuator endpoints. It
polls the configured instances, keeps a journal of what changed, and serves the Spring Boot Admin
user interface with live updates.

- `src/` is the library, verified with Verus: reading health, discovery and info payloads
  (`health`, `discovery`, `probe`), the monitor and its journal (`state`, `polling`, `journal`),
  applications (`groups`), what each route answers (`handlers`, `proxy`, `static_files`), Basic
  Auth (`auth`) and settings (`config`).
- `app/` is the program around it: HTTP, the clock of the poller, the configuration file, and JSON
  as the user interface reads it.
- `tests/` holds the tests of the library.

What outside crates compute for the library is declared next to its use, with the contract that is
relied upon: JSON text (`json`), base64 and UTF-8 (`auth`), content types (`static_files`), reason
phrases (`health`) and timestamps (`clock`).

The program embeds the user interface from `ui-dist/` at compile time.
