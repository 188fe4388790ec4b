# rev_idle

A desktop client that drives the Revolution Idle game through its overlay
bridge: it runs user scripts (JavaScript or TypeScript) that click, scroll and
read game state, pauses them on the F8 hotkey, captures mouse positions on
request, and offers an interactive console.

## Layout

- `src/` is the library, written in Verus and verified: the pause gate and
  script lifecycle, console parsing, line editing and completion, the bridge
  connection's bookkeeping (sessions, waiting requests, inbound handlers),
  the state publisher, mouse-capture decisions, window geometry, clipboard
  encoding, module naming for the script loader, and the script-visible
  global store. Public proof functions named `law_*` state the properties
  that hold across calls.
- `tests/` exercises the library on concrete values.
- `app/` is the program around it: Win32 calls, the WebSocket transport, the
  QuickJS runtime and TypeScript compilation, threads and the async event
  loops. It performs what the library decides and hands back what happened.
