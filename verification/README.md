# desky

The verified core of Desky, a local desktop assistant that chats through a
llama-server child process, can call read-only system-information tools, and
takes on configurable personas.

- `src/` is the library, verified with Verus: keyword detection for system
  questions, the chat-turn state machine (completions, tool calls, display
  panels, the iteration budget), server-sent-event decoding and reply
  accumulation, the llama-server lifecycle (launch plan, health-check backoff,
  crash polling), persona prompts, listing order and active-persona choice,
  love-meter sentiment, tool lookup and `list_processes` ranking, and the
  decisions behind the front end's commands.
- `app/` is the Tauri application around it: files, the child process, HTTP,
  `sysinfo`, JSON shaping and the window.
- `tests/` runs the library on concrete values.
