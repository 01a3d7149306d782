# double_buffered_io

A double-buffered I/O pipeline: bytes received from a transport are handed to
a processor, and for every chunk received exactly as many bytes are sent back,
taken from an output ring buffer that starts out full of zeros.

- `src/` is the verified library (Verus):
  - `ring_buffer.rs` — the output ring buffer, its abstract state and its laws;
  - `double_buffered_io.rs` — configuration, metrics, errors, and
    `PipelineState`, which decides what the input and output contexts do;
  - `processor.rs` — the pass-through and add-one processors;
  - `transport.rs` — transport errors, UART settings, and the step-by-step
    rules of fixed-size receives, timed receives and complete sends;
  - `diagnostics.rs` — verdicts of the latency diagnostics.
- `app/` runs the pipeline on tokio and holds the serial and UDP transports
  and the command-line programs.
- `tests/` exercises the library.
