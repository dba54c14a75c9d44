# claude_executor

The core of an executor that answers chat completions with the Anthropic Messages API, written
in Rust and verified with Verus.

- `src/` is the verified library.
  - `chat`, `temperature`: what a chat request loses and gets before and after translation.
  - `program`, `headers`, `ids`, `gateway`, `executor`: credentials, headers, transports, and requests that
    are ready to be sent.
  - `sse`, `response`, `usage`: streamed and whole responses.
  - `json`, `value`, `text`, `error`: JSON values, texts and errors.
  - `laws`, `stream_laws`: what holds of all of it together, and of whole streams.
- `tests/` runs the library, with the outside crates linked.
- `app/` is the asynchronous part: tokens, sockets and streams.

The name of the client program, which stands in its user agent, in one beta flag and in the name
of its session header, is given by the application; the rest of these texts is fixed in `program`.
