//! The double-buffered I/O pipeline: its configuration, metrics and errors,
//! and the bookkeeping of its two contexts.
//!
//! The input context receives chunks from the transport, asks for exactly as
//! many bytes to be sent back, and hands each chunk to the processor, whose
//! result goes into the output ring buffer.  The output context answers each
//! request with exactly the requested number of bytes, taken from the ring
//! buffer and padded with zeros where it runs short.  `PipelineState` holds
//! the decisions of both contexts; the caller performs the I/O they ask for.
use std::time::Duration;
use vstd::prelude::*;

use crate::ring_buffer::{RingBuffer, RingView, initial_ring};
use crate::transport::{Error, duration_from_secs, seconds};

verus! {

/// Errors of the pipeline.
#[derive(Debug)]
pub enum PipelineError {
    /// Pipeline stopped.
    Stopped,
    /// Transport error.
    TransportError(Error),
}

impl From<Error> for PipelineError {
    fn from(err: Error) -> (r: Self) {
        PipelineError::TransportError(err)
    }
}

impl vstd::std_specs::convert::FromSpecImpl<Error> for PipelineError {
    open spec fn obeys_from_spec() -> bool {
        true
    }

    open spec fn from_spec(err: Error) -> Self {
        PipelineError::TransportError(err)
    }
}

/// Performance metrics.
#[derive(Debug, Clone, Copy, PartialEq, Eq, Structural)]
pub struct PipelineMetrics {
    pub input_bytes: usize,
    pub output_bytes: usize,
    pub processed_bytes: usize,
    pub processing_count: usize,
    pub overflow_count: usize,
    pub underflow_count: usize,
    pub processing_time_ms: usize,
}

/// Counters start at zero.
pub open spec fn zero_metrics() -> PipelineMetrics {
    PipelineMetrics {
        input_bytes: 0,
        output_bytes: 0,
        processed_bytes: 0,
        processing_count: 0,
        overflow_count: 0,
        underflow_count: 0,
        processing_time_ms: 0,
    }
}

impl PipelineMetrics {
    pub fn new() -> (m: Self)
        ensures
            m == zero_metrics(),
    {
        Self {
            input_bytes: 0,
            output_bytes: 0,
            processed_bytes: 0,
            processing_count: 0,
            overflow_count: 0,
            underflow_count: 0,
            processing_time_ms: 0,
        }
    }

    /// Counters after `n` bytes were received.
    pub open spec fn after_input(self, n: usize) -> Self {
        PipelineMetrics { input_bytes: self.input_bytes.wrapping_add(n), ..self }
    }

    /// Counters after `n` bytes were sent.
    pub open spec fn after_output(self, n: usize) -> Self {
        PipelineMetrics { output_bytes: self.output_bytes.wrapping_add(n), ..self }
    }

    /// Counters after the input context handled one receive outcome: only a
    /// non-empty receive is counted.
    pub open spec fn after_receive_event(self, event: ReceiveEvent) -> Self {
        match event {
            ReceiveEvent::Received(n) => if n > 0 {
                self.after_input(n)
            } else {
                self
            },
            ReceiveEvent::Failed => self,
        }
    }
}

/// A counter value reduced into the range of `usize`, as wrapping additions leave it.
pub open spec fn wrapped(x: int) -> int {
    x % (usize::MAX as int + 1)
}

/// Sum of a sequence of byte counts.
pub open spec fn total(sizes: Seq<usize>) -> int
    decreases sizes.len(),
{
    if sizes.len() == 0 {
        0
    } else {
        sizes[0] + total(sizes.drop_first())
    }
}

/// The request sizes that a run of receive outcomes forwards to the output
/// context, in order: one per non-empty receive, none for an empty or failed one.
pub open spec fn forwarded_sizes(events: Seq<ReceiveEvent>) -> Seq<usize>
    decreases events.len(),
{
    if events.len() == 0 {
        Seq::empty()
    } else {
        let rest = forwarded_sizes(events.drop_first());
        match events[0] {
            ReceiveEvent::Received(n) => if n > 0 {
                seq![n] + rest
            } else {
                rest
            },
            ReceiveEvent::Failed => rest,
        }
    }
}

/// Counters after the input context handled each outcome of `events` in turn.
pub open spec fn receive_run(m: PipelineMetrics, events: Seq<ReceiveEvent>) -> PipelineMetrics
    decreases events.len(),
{
    if events.len() == 0 {
        m
    } else {
        receive_run(m.after_receive_event(events[0]), events.drop_first())
    }
}

/// Counters after the input context received each chunk of `chunks` in turn.
pub open spec fn receive_all(m: PipelineMetrics, chunks: Seq<usize>) -> PipelineMetrics
    decreases chunks.len(),
{
    if chunks.len() == 0 {
        m
    } else {
        receive_all(m.after_input(chunks[0]), chunks.drop_first())
    }
}

/// Counters after the output context sent an answer for each request in `chunks` in turn.
pub open spec fn send_all(m: PipelineMetrics, chunks: Seq<usize>) -> PipelineMetrics
    decreases chunks.len(),
{
    if chunks.len() == 0 {
        m
    } else {
        send_all(m.after_output(chunks[0]), chunks.drop_first())
    }
}

/// Pipeline configuration.
#[derive(Debug, Clone, Copy)]
pub struct PipelineConfig {
    pub buffer_size: usize,
    pub max_processing_time: Duration,
    pub timeout: Duration,
    pub read_chunk_size: usize,
    /// Set from `max_processing_time`; not meant to be set by users.
    pub processing_timeout: Duration,
}

impl PipelineConfig {
    /// Create a new config with explicit values.
    pub fn new(
        buffer_size: usize,
        max_processing_time: Duration,
        timeout: Duration,
        read_chunk_size: usize,
    ) -> (c: Self)
        ensures
            c.buffer_size == buffer_size,
            c.max_processing_time == max_processing_time,
            c.timeout == timeout,
            c.read_chunk_size == read_chunk_size,
            c.processing_timeout == max_processing_time,
    {
        Self {
            buffer_size,
            max_processing_time,
            timeout,
            read_chunk_size,
            processing_timeout: max_processing_time,
        }
    }
}

impl Default for PipelineConfig {
    fn default() -> (c: Self)
        ensures
            c.buffer_size == 8192,
            c.max_processing_time == duration_from_secs(1),
            c.timeout == duration_from_secs(5),
            c.read_chunk_size == 1024,
            c.processing_timeout == duration_from_secs(1),
    {
        Self {
            buffer_size: 8192,
            max_processing_time: seconds(1),
            timeout: seconds(5),
            read_chunk_size: 1024,
            processing_timeout: seconds(1),
        }
    }
}

/// Output request for immediate output.
#[derive(Debug, Clone, Copy, PartialEq, Eq, Structural)]
pub struct OutputRequest {
    pub byte_count: usize,
}

/// Outcome of one receive from the transport.
#[derive(Debug, Clone, Copy, PartialEq, Eq, Structural)]
pub enum ReceiveEvent {
    /// The transport stored this many bytes in the read buffer.
    Received(usize),
    /// The transport reported an error.
    Failed,
}

/// What the input context does after a receive.
#[derive(Debug, Clone, Copy, PartialEq, Eq, Structural)]
pub enum InputAction {
    /// Send this request to the output context and process the first
    /// `request.byte_count` bytes of the read buffer.
    Forward(OutputRequest),
    /// Nothing arrived: wait a little and receive again.
    WaitIdle,
    /// The receive failed: wait a little longer and receive again.
    WaitAfterError,
}

/// What the output context does with a request.
#[derive(Debug, PartialEq, Eq)]
pub enum OutputAction {
    /// A zero-byte request is the shutdown signal.
    Shutdown,
    /// Send exactly these bytes.
    Send(Vec<u8>),
}

/// Whether the output context goes on after a send.
#[derive(Debug, Clone, Copy, PartialEq, Eq, Structural)]
pub enum OutputFlow {
    /// Serve the next request.
    Continue,
    /// The send failed: the output context ends.
    Stop,
}

/// The bytes that answer a request of `n` bytes: what the buffer holds, oldest
/// first, padded with zeros up to `n`.
pub open spec fn output_for(buffer: RingView, n: nat) -> Seq<u8> {
    buffer.front(n) + Seq::new((n - buffer.taken(n)) as nat, |i: int| 0u8)
}

/// Abstract state of the pipeline's bookkeeping.
pub struct PipelineView {
    pub buffer: RingView,
    pub metrics: PipelineMetrics,
}

/// The state shared by the input and output contexts: the output ring buffer and the metrics.
pub struct PipelineState {
    output_buffer: RingBuffer,
    metrics: PipelineMetrics,
}

impl View for PipelineState {
    type V = PipelineView;

    closed spec fn view(&self) -> PipelineView {
        PipelineView { buffer: self.output_buffer@, metrics: self.metrics }
    }
}

impl PipelineState {
    /// Internal consistency.
    pub closed spec fn wf(&self) -> bool {
        self.output_buffer.wf()
    }

    /// Fresh state for a pipeline with the given configuration: an output
    /// buffer of `buffer_size` zeros and all counters at zero.
    pub fn new(config: &PipelineConfig) -> (s: Self)
        ensures
            s.wf(),
            s@.buffer == initial_ring(config.buffer_size as nat),
            s@.metrics == zero_metrics(),
    {
        PipelineState {
            output_buffer: RingBuffer::new(config.buffer_size),
            metrics: PipelineMetrics::new(),
        }
    }

    /// A well-formed state has a valid buffer.
    pub proof fn lemma_wf_view(&self)
        requires
            self.wf(),
        ensures
            self@.buffer.valid(),
    {
        self.output_buffer.lemma_wf_view();
    }

    /// Current metrics.
    pub fn metrics(&self) -> (m: PipelineMetrics)
        ensures
            m == self@.metrics,
    {
        self.metrics
    }

    /// Input context: decide what follows a receive, counting received bytes.
    pub fn on_receive(&mut self, event: ReceiveEvent) -> (a: InputAction)
        requires
            old(self).wf(),
        ensures
            final(self).wf(),
            final(self)@.buffer == old(self)@.buffer,
            final(self)@.metrics == old(self)@.metrics.after_receive_event(event),
            match event {
                ReceiveEvent::Received(n) => if n > 0 {
                    &&& a == InputAction::Forward(OutputRequest { byte_count: n })
                    &&& final(self)@.metrics == old(self)@.metrics.after_input(n)
                } else {
                    a == InputAction::WaitIdle && final(self)@.metrics == old(self)@.metrics
                },
                ReceiveEvent::Failed => a == InputAction::WaitAfterError && final(self)@.metrics
                    == old(self)@.metrics,
            },
    {
        match event {
            ReceiveEvent::Received(n) => {
                if n > 0 {
                    self.metrics.input_bytes = self.metrics.input_bytes.wrapping_add(n);
                    InputAction::Forward(OutputRequest { byte_count: n })
                } else {
                    InputAction::WaitIdle
                }
            },
            ReceiveEvent::Failed => InputAction::WaitAfterError,
        }
    }

    /// Processing: store a processed chunk in the output buffer, taking
    /// `elapsed_ms` as the time its processing took.  Returns the number of
    /// bytes stored; a chunk that does not fit in full counts as an overflow.
    pub fn on_processed(&mut self, processed: &[u8], elapsed_ms: usize) -> (written: usize)
        requires
            old(self).wf(),
        ensures
            final(self).wf(),
            written == old(self)@.buffer.accepted(processed@.len()),
            final(self)@.buffer == old(self)@.buffer.after_write(processed@),
            final(self)@.metrics == (PipelineMetrics {
                processing_time_ms: elapsed_ms,
                processing_count: old(self)@.metrics.processing_count.wrapping_add(1),
                processed_bytes: old(self)@.metrics.processed_bytes.wrapping_add(written),
                overflow_count: if written < processed@.len() {
                    old(self)@.metrics.overflow_count.wrapping_add(1)
                } else {
                    old(self)@.metrics.overflow_count
                },
                ..old(self)@.metrics
            }),
    {
        self.metrics.processing_time_ms = elapsed_ms;
        self.metrics.processing_count = self.metrics.processing_count.wrapping_add(1);
        let written = self.output_buffer.write(processed);
        self.metrics.processed_bytes = self.metrics.processed_bytes.wrapping_add(written);
        if written < processed.len() {
            self.metrics.overflow_count = self.metrics.overflow_count.wrapping_add(1);
        }
        written
    }

    /// Output context: answer a request with exactly `byte_count` bytes, taken
    /// from the output buffer and padded with zeros when the buffer runs short
    /// (an underflow).  A zero-byte request asks the context to shut down.
    pub fn on_output_request(&mut self, request: OutputRequest) -> (a: OutputAction)
        requires
            old(self).wf(),
            request.byte_count > 0 ==> old(self)@.buffer.capacity > 0,
        ensures
            final(self).wf(),
            request.byte_count == 0 ==> a == OutputAction::Shutdown && final(self)@ == old(self)@,
            request.byte_count > 0 ==> {
                let n = request.byte_count as nat;
                let old_len = old(self)@.buffer.contents.len();
                let k = old(self)@.buffer.taken(n);
                &&& a matches OutputAction::Send(data) && data@ == output_for(old(self)@.buffer, n)
                &&& a matches OutputAction::Send(data) && {
                    &&& data@.len() == n
                    &&& forall|i: int|
                        0 <= i < k ==> #[trigger] data@[i] == old(self)@.buffer.contents[i]
                    &&& forall|i: int| k <= i < n ==> #[trigger] data@[i] == 0
                }
                &&& final(self)@.buffer == old(self)@.buffer.after_read(n)
                &&& final(self)@.metrics == if n > old_len {
                    PipelineMetrics {
                        underflow_count: old(self)@.metrics.underflow_count.wrapping_add(1),
                        ..old(self)@.metrics
                    }
                } else {
                    old(self)@.metrics
                }
            },
    {
        let n = request.byte_count;
        if n == 0 {
            return OutputAction::Shutdown;
        }
        let ghost old_buffer = self.output_buffer@;
        let available = self.output_buffer.available_data();
        let data = if available >= n {
            let data = self.output_buffer.read(n);
            proof {
                assert(output_for(old_buffer, n as nat) =~= old_buffer.front(n as nat));
            }
            data
        } else {
            let mut data = self.output_buffer.read(available);
            proof {
                assert(old_buffer.after_read(available as nat) == old_buffer.after_read(n as nat));
                assert(old_buffer.front(available as nat) == old_buffer.front(n as nat));
            }
            let mut i = available;
            while i < n
                invariant
                    available <= i <= n,
                    data@ == old_buffer.front(n as nat) + Seq::new(
                        (i - available) as nat,
                        |j: int| 0u8,
                    ),
                decreases n - i,
            {
                data.push(0u8);
                proof {
                    assert(data@ =~= old_buffer.front(n as nat) + Seq::new(
                        (i + 1 - available) as nat,
                        |j: int| 0u8,
                    ));
                }
                i = i + 1;
            }
            self.metrics.underflow_count = self.metrics.underflow_count.wrapping_add(1);
            data
        };
        OutputAction::Send(data)
    }

    /// Output context: count bytes that the transport sent.
    pub fn on_sent(&mut self, byte_count: usize)
        requires
            old(self).wf(),
        ensures
            final(self).wf(),
            final(self)@.buffer == old(self)@.buffer,
            final(self)@.metrics == old(self)@.metrics.after_output(byte_count),
    {
        self.metrics.output_bytes = self.metrics.output_bytes.wrapping_add(byte_count);
    }

    /// Output context: take the outcome of sending the `byte_count` bytes that
    /// answered a request.  A successful send is counted and the next request
    /// is served; a failed send is not counted and ends the output context.
    pub fn on_send_result(&mut self, byte_count: usize, sent: bool) -> (flow: OutputFlow)
        requires
            old(self).wf(),
        ensures
            final(self).wf(),
            final(self)@.buffer == old(self)@.buffer,
            sent ==> flow == OutputFlow::Continue && final(self)@.metrics == old(
                self,
            )@.metrics.after_output(byte_count),
            !sent ==> flow == OutputFlow::Stop && final(self)@.metrics == old(self)@.metrics,
    {
        if sent {
            self.on_sent(byte_count);
            OutputFlow::Continue
        } else {
            OutputFlow::Stop
        }
    }
}

/// The answer to a request keeps every buffered byte it takes: its first
/// `min(n, buffered)` bytes are the oldest buffered bytes in order, and only the
/// bytes past those are zero padding.
pub proof fn law_output_keeps_buffered_bytes(buffer: RingView, n: nat)
    ensures
        output_for(buffer, n).len() == n,
        buffer.taken(n) == if n < buffer.contents.len() {
            n
        } else {
            buffer.contents.len()
        },
        forall|i: int|
            0 <= i < buffer.taken(n) ==> #[trigger] output_for(buffer, n)[i] == buffer.contents[i],
        forall|i: int| buffer.taken(n) <= i < n ==> #[trigger] output_for(buffer, n)[i] == 0,
        output_for(buffer, n).take(buffer.taken(n) as int) == buffer.contents.take(
            buffer.taken(n) as int,
        ),
{
    let o = output_for(buffer, n);
    let k = buffer.taken(n);
    assert(o.take(k as int) =~= buffer.contents.take(k as int));
}

/// Exact byte correspondence: the answer to a request of `n` bytes is always
/// exactly `n` bytes long, whatever the buffer holds.
pub proof fn law_output_matches_request(buffer: RingView, n: nat)
    ensures
        output_for(buffer, n).len() == n,
        buffer.contents.len() >= n ==> output_for(buffer, n) == buffer.contents.take(n as int),
{
    if buffer.contents.len() >= n {
        assert(output_for(buffer, n) =~= buffer.contents.take(n as int));
    }
}

/// Double buffering in steady state: once the initial zeros are gone, a
/// processed chunk that fits is stored whole, the answer to the matching
/// request is the oldest bytes of the buffer followed by the new chunk, and the
/// number of buffered bytes (the pipeline's delay) stays the same.
pub proof fn law_steady_state(buffer: RingView, chunk: Seq<u8>)
    requires
        buffer.valid(),
        buffer.placeholders == 0,
        chunk.len() <= buffer.free_space(),
    ensures
        buffer.accepted(chunk.len()) == chunk.len(),
        output_for(buffer.after_write(chunk), chunk.len()) == (buffer.contents + chunk).take(
            chunk.len() as int,
        ),
        buffer.after_write(chunk).after_read(chunk.len()).contents == (buffer.contents
            + chunk).skip(chunk.len() as int),
        buffer.after_write(chunk).after_read(chunk.len()).contents.len() == buffer.contents.len(),
{
    let w = buffer.after_write(chunk);
    assert(chunk.take(chunk.len() as int) =~= chunk);
    assert(buffer.contents.skip(0) =~= buffer.contents);
    assert(w.contents =~= buffer.contents + chunk);
    assert(output_for(w, chunk.len()) =~= (buffer.contents + chunk).take(chunk.len() as int));
    assert(w.after_read(chunk.len()).contents =~= (buffer.contents + chunk).skip(chunk.len() as int));
}

/// Receiving counts only the input side, sending only the output side.
proof fn lemma_receive_all_output(m: PipelineMetrics, chunks: Seq<usize>)
    ensures
        receive_all(m, chunks).output_bytes == m.output_bytes,
    decreases chunks.len(),
{
    if chunks.len() > 0 {
        lemma_receive_all_output(m.after_input(chunks[0]), chunks.drop_first());
    }
}

proof fn lemma_send_all_input(m: PipelineMetrics, chunks: Seq<usize>)
    ensures
        send_all(m, chunks).input_bytes == m.input_bytes,
    decreases chunks.len(),
{
    if chunks.len() > 0 {
        lemma_send_all_input(m.after_output(chunks[0]), chunks.drop_first());
    }
}

/// The input and output byte counters move in step.
proof fn lemma_counters_in_step(a: PipelineMetrics, b: PipelineMetrics, chunks: Seq<usize>)
    requires
        a.input_bytes == b.output_bytes,
    ensures
        receive_all(a, chunks).input_bytes == send_all(b, chunks).output_bytes,
    decreases chunks.len(),
{
    if chunks.len() > 0 {
        lemma_counters_in_step(a.after_input(chunks[0]), b.after_output(chunks[0]), chunks.drop_first());
    }
}

/// Streaming consistency: when every received chunk has been answered with
/// its request, the output byte count equals the input byte count again.
pub proof fn law_streaming_consistency(m: PipelineMetrics, chunks: Seq<usize>)
    requires
        m.input_bytes == m.output_bytes,
    ensures
        send_all(receive_all(m, chunks), chunks).input_bytes == send_all(
            receive_all(m, chunks),
            chunks,
        ).output_bytes,
{
    let r = receive_all(m, chunks);
    lemma_send_all_input(r, chunks);
    lemma_receive_all_output(m, chunks);
    lemma_counters_in_step(m, r, chunks);
}

/// One wrapping addition is an addition reduced into the range of `usize`.
proof fn lemma_wrapping_add_is_wrapped(x: usize, y: usize)
    ensures
        x.wrapping_add(y) == wrapped(x + y),
{
    let m = usize::MAX as int + 1;
    if x + y > usize::MAX {
        vstd::arithmetic::div_mod::lemma_mod_add_multiples_vanish(x + y - m, m);
        vstd::arithmetic::div_mod::lemma_small_mod((x + y - m) as nat, m as nat);
    } else {
        vstd::arithmetic::div_mod::lemma_small_mod((x + y) as nat, m as nat);
    }
}

/// Adding to a wrapped value and wrapping again is wrapping the plain sum.
proof fn lemma_wrapped_add(a: int, b: int)
    ensures
        wrapped(wrapped(a) + b) == wrapped(a + b),
{
    let m = usize::MAX as int + 1;
    vstd::arithmetic::div_mod::lemma_add_mod_noop_right(b, a, m);
    assert(b + a == a + b);
    assert(b + (a % m) == (a % m) + b);
}

/// The input counter after receiving chunks is the wrapped sum of their sizes;
/// nothing else changes.
proof fn lemma_receive_all_sum(m: PipelineMetrics, chunks: Seq<usize>)
    ensures
        receive_all(m, chunks) == (PipelineMetrics {
            input_bytes: wrapped(m.input_bytes + total(chunks)) as usize,
            ..m
        }),
    decreases chunks.len(),
{
    if chunks.len() == 0 {
        vstd::arithmetic::div_mod::lemma_small_mod(m.input_bytes as nat, usize::MAX as nat + 1);
    } else {
        let next = m.after_input(chunks[0]);
        lemma_receive_all_sum(next, chunks.drop_first());
        lemma_wrapping_add_is_wrapped(m.input_bytes, chunks[0]);
        lemma_wrapped_add(m.input_bytes + chunks[0], total(chunks.drop_first()));
        assert(m.input_bytes + chunks[0] + total(chunks.drop_first()) == m.input_bytes + total(
            chunks,
        ));
    }
}

/// A run of receive outcomes counts exactly the chunks it forwards.
proof fn lemma_receive_run_forwards(m: PipelineMetrics, events: Seq<ReceiveEvent>)
    ensures
        receive_run(m, events) == receive_all(m, forwarded_sizes(events)),
    decreases events.len(),
{
    if events.len() > 0 {
        let e = events[0];
        let rest = events.drop_first();
        lemma_receive_run_forwards(m.after_receive_event(e), rest);
        match e {
            ReceiveEvent::Received(n) => {
                if n > 0 {
                    let f = seq![n] + forwarded_sizes(rest);
                    assert(f.drop_first() =~= forwarded_sizes(rest));
                    assert(f[0] == n);
                }
            },
            ReceiveEvent::Failed => {},
        }
    }
}

/// Input side over a run: the sizes of the requests forwarded to the output
/// context add up to the input byte counter (modulo the width of `usize`, and
/// exactly while it does not wrap); no other counter changes.
pub proof fn law_forwarded_sizes_sum_to_input(m: PipelineMetrics, events: Seq<ReceiveEvent>)
    ensures
        receive_run(m, events) == (PipelineMetrics {
            input_bytes: wrapped(m.input_bytes + total(forwarded_sizes(events))) as usize,
            ..m
        }),
        m.input_bytes + total(forwarded_sizes(events)) <= usize::MAX ==> receive_run(
            m,
            events,
        ).input_bytes == m.input_bytes + total(forwarded_sizes(events)),
{
    lemma_receive_run_forwards(m, events);
    lemma_receive_all_sum(m, forwarded_sizes(events));
    lemma_total_nonneg(forwarded_sizes(events));
    if m.input_bytes + total(forwarded_sizes(events)) <= usize::MAX {
        vstd::arithmetic::div_mod::lemma_small_mod(
            (m.input_bytes + total(forwarded_sizes(events))) as nat,
            usize::MAX as nat + 1,
        );
    }
}

proof fn lemma_total_nonneg(sizes: Seq<usize>)
    ensures
        total(sizes) >= 0,
    decreases sizes.len(),
{
    if sizes.len() > 0 {
        lemma_total_nonneg(sizes.drop_first());
    }
}

/// Output side over a run: after the requests of `sizes` were each answered and
/// sent, the output byte counter has grown by their total (modulo the width of
/// `usize`, and exactly while it does not wrap); no other counter changes.
pub proof fn law_served_sizes_sum_to_output(m: PipelineMetrics, sizes: Seq<usize>)
    ensures
        send_all(m, sizes) == (PipelineMetrics {
            output_bytes: wrapped(m.output_bytes + total(sizes)) as usize,
            ..m
        }),
        m.output_bytes + total(sizes) <= usize::MAX ==> send_all(m, sizes).output_bytes
            == m.output_bytes + total(sizes),
    decreases sizes.len(),
{
    if sizes.len() == 0 {
        vstd::arithmetic::div_mod::lemma_small_mod(m.output_bytes as nat, usize::MAX as nat + 1);
    } else {
        let next = m.after_output(sizes[0]);
        law_served_sizes_sum_to_output(next, sizes.drop_first());
        lemma_wrapping_add_is_wrapped(m.output_bytes, sizes[0]);
        lemma_wrapped_add(m.output_bytes + sizes[0], total(sizes.drop_first()));
        assert(m.output_bytes + sizes[0] + total(sizes.drop_first()) == m.output_bytes + total(
            sizes,
        ));
    }
    lemma_total_nonneg(sizes);
    if m.output_bytes + total(sizes) <= usize::MAX {
        vstd::arithmetic::div_mod::lemma_small_mod(
            (m.output_bytes + total(sizes)) as nat,
            usize::MAX as nat + 1,
        );
    }
}

} // verus!
