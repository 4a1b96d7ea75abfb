# sidecar_edit

The core of a search-and-replace code editing tool, verified with Verus.

A language model answers an edit request with SEARCH/REPLACE blocks. The
accumulator reads the answer as it streams in, line by line; for each block it
finds the search lines in the code, applies the replacement, and sends edit
events on a tokio channel.

- `src/text.rs`: the text model (lines as `str::lines` cuts them, joining).
- `src/range.rs`: positions and line ranges.
- `src/search.rs`: where a search block stands in the code.
- `src/accumulator.rs`: the streaming accumulator and its state machine.
- `src/channel.rs`: the tokio channel the edit events travel on.
- `src/laws.rs`: what holds over whole blocks and whole answers.
- `src/prompts.rs`, `src/editing.rs`: the messages sent to the model, the
  request and response of the tool, and the events streamed to the editor.
- `src/undo.rs`: the request that undoes the changes of an exchange.
- `app/`: the language model stream, the editor's HTTP endpoint and the JSON
  forms of the undo messages.
