# musedesk

The logic of MuseDesk, a desktop agent: it asks a language model, runs the tools
that the model calls, and waits for a person's approval before anything that
writes or executes. The logic is written in Rust and verified with Verus; what
touches the world is ordinary Rust around it.

## Layout

- `src/`: the verified library.
  - `agent`: a turn as a state machine that says what to do next.
  - `reply`: how the deltas of a stream add up to a reply and its tool calls.
  - `sse`: the event stream of a chat answer.
  - `local_cli`: the backend that runs through the `muse` CLI.
  - `prompt`: the conversation as one text, for that backend.
  - `tools`: the tools, which of them are gated, what a call asks for and what it
    reports.
  - `approvals`: who waits for which decision.
  - `config`: which backend the environment selects.
  - `json`, `text`, `utf8`, `ids`: values, text, its bytes and fresh identifiers.
- `tests/`: tests of the library on concrete values.
- `app/`: the desktop program: the window, HTTP, processes and files.

## What is promised

Public proof functions named `law_…` state what holds of the library as a whole,
for instance that a gated call runs only when that very call was approved, that
every call is answered once before the model is asked again, and that what a
stream delivers depends on its bytes alone, wherever they are cut into chunks.

## What is trusted

Parsing and printing of JSON is `serde_json`, UUIDs are `uuid`. The functions that
call them, and a few of the standard library, are marked `external_body` or
`assume_specification`; the comment above each says what is believed of it.
