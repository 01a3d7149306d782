//! Transport layer: its error type, the settings of a UART port, and the
//! progress rules that drive reads and writes on a serial port.
//!
//! The port itself is opened and driven by the caller; the types here decide,
//! after each read or write, what to do next.
use std::time::Duration;
use tokio_serial::Error as SerialPortError;
use vstd::prelude::*;

verus! {

/// `std::io::Error`, carried through unexamined in `Error::Io`; nothing is claimed of it.
#[verifier::external_type_specification]
#[verifier::external_body]
pub struct ExIoError(std::io::Error);

/// `tokio_serial::Error` (the serial port library's error), carried through
/// unexamined in `Error::SerialPort`; nothing is claimed of it.
#[verifier::external_type_specification]
#[verifier::external_body]
pub struct ExSerialPortError(SerialPortError);

/// Error types for the transport layer.
#[derive(Debug)]
pub enum Error {
    /// I/O error.
    Io(std::io::Error),
    /// Serial port error.
    SerialPort(SerialPortError),
    /// Timeout occurred.
    Timeout,
    /// Transport not connected.
    NotConnected,
    /// Invalid operation, with a description.
    InvalidOperation(String),
    /// Buffer too small.
    BufferTooSmall,
}

/// Number of data bits per character.
#[derive(Debug, Clone, Copy, PartialEq, Eq, Structural)]
pub enum DataBits {
    Five,
    Six,
    Seven,
    Eight,
}

/// Parity checking mode.
#[derive(Debug, Clone, Copy, PartialEq, Eq, Structural)]
pub enum Parity {
    /// No parity bit.
    Disabled,
    Odd,
    Even,
}

/// Number of stop bits.
#[derive(Debug, Clone, Copy, PartialEq, Eq, Structural)]
pub enum StopBits {
    One,
    Two,
}

/// Flow control mode.
#[derive(Debug, Clone, Copy, PartialEq, Eq, Structural)]
pub enum FlowControl {
    /// No flow control.
    Disabled,
    Software,
    Hardware,
}

/// Name for the duration that `Duration::from_secs` makes of `secs` seconds.
pub uninterp spec fn duration_from_secs(secs: u64) -> Duration;

/// `std::time::Duration::from_secs`: the duration of `secs` whole seconds.
/// Claimed: the result is the same for the same number of seconds.
#[verifier::external_body]
pub(crate) fn seconds(secs: u64) -> (d: Duration)
    ensures
        d == duration_from_secs(secs),
{
    Duration::from_secs(secs)
}

/// Builder pattern for UART transport configuration.
pub struct UartTransportBuilder {
    pub port_name: String,
    pub baud_rate: u32,
    pub timeout: Duration,
    pub data_bits: DataBits,
    pub parity: Parity,
    pub stop_bits: StopBits,
    pub flow_control: FlowControl,
}

impl UartTransportBuilder {
    /// Create a new builder with default settings.
    pub fn new(port_name: &str) -> (b: Self)
        ensures
            b.port_name@ == port_name@,
            b.baud_rate == 115200,
            b.timeout == duration_from_secs(5),
            b.data_bits == DataBits::Eight,
            b.parity == Parity::Disabled,
            b.stop_bits == StopBits::One,
            b.flow_control == FlowControl::Disabled,
    {
        Self {
            port_name: port_name.to_owned(),
            baud_rate: 115200,
            timeout: seconds(5),
            data_bits: DataBits::Eight,
            parity: Parity::Disabled,
            stop_bits: StopBits::One,
            flow_control: FlowControl::Disabled,
        }
    }

    /// Set baud rate.
    pub fn baud_rate(self, baud_rate: u32) -> (b: Self)
        ensures
            b == (Self { baud_rate, ..self }),
    {
        Self { baud_rate, ..self }
    }

    /// Set timeout.
    pub fn timeout(self, timeout: Duration) -> (b: Self)
        ensures
            b == (Self { timeout, ..self }),
    {
        Self { timeout, ..self }
    }

    /// Set data bits.
    pub fn data_bits(self, data_bits: DataBits) -> (b: Self)
        ensures
            b == (Self { data_bits, ..self }),
    {
        Self { data_bits, ..self }
    }

    /// Set parity.
    pub fn parity(self, parity: Parity) -> (b: Self)
        ensures
            b == (Self { parity, ..self }),
    {
        Self { parity, ..self }
    }

    /// Set stop bits.
    pub fn stop_bits(self, stop_bits: StopBits) -> (b: Self)
        ensures
            b == (Self { stop_bits, ..self }),
    {
        Self { stop_bits, ..self }
    }

    /// Set flow control.
    pub fn flow_control(self, flow_control: FlowControl) -> (b: Self)
        ensures
            b == (Self { flow_control, ..self }),
    {
        Self { flow_control, ..self }
    }
}

/// Outcome of one read from the port.
#[derive(Debug, Clone, Copy, PartialEq, Eq, Structural)]
pub enum ReadEvent {
    /// The read stored this many bytes.
    Read(usize),
    /// No data was ready (`WouldBlock`).
    WouldBlock,
    /// The read did not finish within the timeout.
    TimedOut,
    /// Any other I/O error.
    Failed,
}

/// Why a receive gave up.
#[derive(Debug, Clone, Copy, PartialEq, Eq, Structural)]
pub enum ReceiveFailure {
    /// The port reported end of stream before all bytes arrived.
    UnexpectedEof,
    /// The timeout expired.
    TimedOut,
    /// The read failed with an I/O error.
    Io,
}

/// What to do next while receiving.
#[derive(Debug, Clone, Copy, PartialEq, Eq, Structural)]
pub enum ReceiveStep {
    /// Read into `buffer[start..end]`.
    ReadInto { start: usize, end: usize },
    /// Wait briefly, then ask for the next step.
    Pause,
    /// Check the clock, then ask for the next step.
    Resume,
    /// The receive is over and reports this many bytes.
    Complete(usize),
    /// The receive failed.
    Fail(ReceiveFailure),
}

/// Result of a single UART receive call, given the outcome of its read:
/// no data ready counts as zero bytes received.
pub fn receive_outcome(event: ReadEvent) -> (r: Result<usize, ReceiveFailure>)
    ensures
        r == match event {
            ReadEvent::Read(n) => Ok(n),
            ReadEvent::WouldBlock => Ok(0),
            ReadEvent::TimedOut => Err(ReceiveFailure::TimedOut),
            ReadEvent::Failed => Err(ReceiveFailure::Io),
        },
{
    match event {
        ReadEvent::Read(n) => Ok(n),
        ReadEvent::WouldBlock => Ok(0),
        ReadEvent::TimedOut => Err(ReceiveFailure::TimedOut),
        ReadEvent::Failed => Err(ReceiveFailure::Io),
    }
}

/// Progress of a receive that must deliver exactly `fixed_receive_size` bytes.
pub struct FixedReceive {
    target: usize,
    received: usize,
}

impl FixedReceive {
    /// Number of bytes the receive must deliver.
    pub closed spec fn target(&self) -> nat {
        self.target as nat
    }

    /// Number of bytes received so far; they sit at the front of the buffer.
    pub closed spec fn received(&self) -> nat {
        self.received as nat
    }

    /// The step that follows a state, given how far it got.
    pub open spec fn step_for(&self) -> ReceiveStep {
        if self.received() < self.target() {
            (ReceiveStep::ReadInto { start: self.received() as usize, end: self.target() as usize })
        } else {
            ReceiveStep::Complete(self.target() as usize)
        }
    }

    /// Start receiving `fixed_receive_size` bytes into a buffer of `buffer_len` bytes.
    pub fn new(fixed_receive_size: usize, buffer_len: usize) -> (r: Self)
        requires
            fixed_receive_size <= buffer_len,
        ensures
            r.target() == fixed_receive_size,
            r.received() == 0,
    {
        FixedReceive { target: fixed_receive_size, received: 0 }
    }

    /// Bytes received so far.
    pub fn received_count(&self) -> (n: usize)
        ensures
            n == self.received(),
    {
        self.received
    }

    /// What to do now: read into the rest of the buffer, or report completion.
    pub fn next_step(&self) -> (s: ReceiveStep)
        requires
            self.received() <= self.target(),
        ensures
            s == self.step_for(),
            self.received() < self.target() ==> s == (ReceiveStep::ReadInto {
                start: self.received() as usize,
                end: self.target() as usize,
            }),
            self.received() == self.target() ==> s == ReceiveStep::Complete(self.target() as usize),
    {
        if self.received < self.target {
            ReceiveStep::ReadInto { start: self.received, end: self.target }
        } else {
            ReceiveStep::Complete(self.target)
        }
    }

    /// Take in the outcome of a read into `buffer[received..target]`.
    pub fn on_read(&mut self, event: ReadEvent) -> (s: ReceiveStep)
        requires
            old(self).received() < old(self).target(),
            event matches ReadEvent::Read(n) ==> n <= old(self).target() - old(self).received(),
        ensures
            final(self).target() == old(self).target(),
            final(self).received() <= final(self).target(),
            match event {
                ReadEvent::Read(n) => if n == 0 {
                    final(self).received() == old(self).received() && s == ReceiveStep::Fail(
                        ReceiveFailure::UnexpectedEof,
                    )
                } else {
                    &&& final(self).received() == old(self).received() + n
                    &&& s == final(self).step_for()
                    &&& s == if old(self).received() + n < old(self).target() {
                        (ReceiveStep::ReadInto {
                            start: (old(self).received() + n) as usize,
                            end: old(self).target() as usize,
                        })
                    } else {
                        ReceiveStep::Complete(old(self).target() as usize)
                    }
                },
                ReadEvent::WouldBlock => final(self).received() == old(self).received() && s
                    == ReceiveStep::Pause,
                ReadEvent::TimedOut => final(self).received() == old(self).received() && s
                    == ReceiveStep::Fail(ReceiveFailure::TimedOut),
                ReadEvent::Failed => final(self).received() == old(self).received() && s
                    == ReceiveStep::Fail(ReceiveFailure::Io),
            },
    {
        match event {
            ReadEvent::Read(n) => {
                if n == 0 {
                    ReceiveStep::Fail(ReceiveFailure::UnexpectedEof)
                } else {
                    self.received = self.received + n;
                    self.next_step()
                }
            },
            ReadEvent::WouldBlock => ReceiveStep::Pause,
            ReadEvent::TimedOut => ReceiveStep::Fail(ReceiveFailure::TimedOut),
            ReadEvent::Failed => ReceiveStep::Fail(ReceiveFailure::Io),
        }
    }
}

/// Progress of a receive that stops at `min(buffer_len, fixed_receive_size)` bytes,
/// at end of stream, or when the timeout expires.
pub struct TimedReceive {
    limit: usize,
    fixed: usize,
    received: usize,
}

impl TimedReceive {
    /// Most bytes this receive reads.
    pub closed spec fn limit(&self) -> nat {
        self.limit as nat
    }

    /// The fixed packet size of the port.
    pub closed spec fn fixed(&self) -> nat {
        self.fixed as nat
    }

    /// Bytes received so far.
    pub closed spec fn received(&self) -> nat {
        self.received as nat
    }

    /// Internal consistency.
    pub open spec fn wf(&self) -> bool {
        &&& self.limit() <= self.fixed()
        &&& self.received() <= self.limit()
    }

    /// Start a receive into a buffer of `buffer_len` bytes.
    pub fn new(buffer_len: usize, fixed_receive_size: usize) -> (r: Self)
        ensures
            r.wf(),
            r.limit() == if buffer_len < fixed_receive_size {
                buffer_len
            } else {
                fixed_receive_size
            },
            r.fixed() == fixed_receive_size,
            r.received() == 0,
    {
        let limit = if buffer_len < fixed_receive_size {
            buffer_len
        } else {
            fixed_receive_size
        };
        TimedReceive { limit, fixed: fixed_receive_size, received: 0 }
    }

    /// Bytes received so far.
    pub fn received_count(&self) -> (n: usize)
        ensures
            n == self.received(),
    {
        self.received
    }

    /// The step that follows a state, given whether the timeout has expired.
    pub open spec fn step_for(&self, timed_out: bool) -> ReceiveStep {
        if self.received() < self.limit() && !timed_out {
            (ReceiveStep::ReadInto { start: self.received() as usize, end: self.limit() as usize })
        } else {
            ReceiveStep::Complete(self.received() as usize)
        }
    }

    /// What to do now, given whether the timeout has expired.
    pub fn next_step(&self, timed_out: bool) -> (s: ReceiveStep)
        requires
            self.wf(),
        ensures
            s == self.step_for(timed_out),
            timed_out ==> s == ReceiveStep::Complete(self.received() as usize),
            !timed_out && self.received() < self.limit() ==> s == (ReceiveStep::ReadInto {
                start: self.received() as usize,
                end: self.limit() as usize,
            }),
            self.received() == self.limit() ==> s == ReceiveStep::Complete(self.received() as usize),
    {
        if self.received < self.limit && !timed_out {
            ReceiveStep::ReadInto { start: self.received, end: self.limit }
        } else {
            ReceiveStep::Complete(self.received)
        }
    }

    /// Take in the outcome of a read into `buffer[received..limit]`; `timed_out`
    /// tells whether the timeout had expired when the read came back.
    pub fn on_read(&mut self, event: ReadEvent, timed_out: bool) -> (s: ReceiveStep)
        requires
            old(self).wf(),
            old(self).received() < old(self).limit(),
            event matches ReadEvent::Read(n) ==> n <= old(self).limit() - old(self).received(),
        ensures
            final(self).wf(),
            final(self).limit() == old(self).limit(),
            final(self).fixed() == old(self).fixed(),
            match event {
                ReadEvent::Read(n) => if n == 0 {
                    final(self).received() == old(self).received() && s == ReceiveStep::Complete(
                        old(self).received() as usize,
                    )
                } else {
                    &&& final(self).received() == old(self).received() + n
                    &&& s == if final(self).received() >= final(self).fixed() {
                        ReceiveStep::Complete(final(self).received() as usize)
                    } else {
                        ReceiveStep::Resume
                    }
                },
                ReadEvent::WouldBlock => final(self).received() == old(self).received() && s
                    == if timed_out {
                    ReceiveStep::Fail(ReceiveFailure::TimedOut)
                } else {
                    ReceiveStep::Pause
                },
                ReadEvent::TimedOut => final(self).received() == old(self).received() && s
                    == ReceiveStep::Fail(ReceiveFailure::TimedOut),
                ReadEvent::Failed => final(self).received() == old(self).received() && s
                    == ReceiveStep::Fail(ReceiveFailure::Io),
            },
    {
        match event {
            ReadEvent::Read(n) => {
                if n == 0 {
                    ReceiveStep::Complete(self.received)
                } else {
                    self.received = self.received + n;
                    if self.received >= self.fixed {
                        ReceiveStep::Complete(self.received)
                    } else {
                        ReceiveStep::Resume
                    }
                }
            },
            ReadEvent::WouldBlock => {
                if timed_out {
                    ReceiveStep::Fail(ReceiveFailure::TimedOut)
                } else {
                    ReceiveStep::Pause
                }
            },
            ReadEvent::TimedOut => ReceiveStep::Fail(ReceiveFailure::TimedOut),
            ReadEvent::Failed => ReceiveStep::Fail(ReceiveFailure::Io),
        }
    }
}

/// A fixed-size receive reports completion only once all of its bytes have
/// arrived, and it then reports exactly the fixed size.
pub proof fn law_fixed_receive_completes_full(r: FixedReceive)
    requires
        r.received() <= r.target(),
    ensures
        r.step_for() matches ReceiveStep::Complete(k) ==> k == r.target() && r.received()
            == r.target(),
        r.step_for() matches ReceiveStep::ReadInto { start, end } ==> start == r.received() && end
            == r.target() && start < end,
{
}

/// A timed receive never reports more bytes than the buffer or the fixed packet size allow.
pub proof fn law_timed_receive_bounded(r: TimedReceive, timed_out: bool)
    requires
        r.wf(),
    ensures
        r.step_for(timed_out) matches ReceiveStep::Complete(k) ==> k <= r.limit() && k <= r.fixed(),
{
}

/// Outcome of one write to the port.
#[derive(Debug, Clone, Copy, PartialEq, Eq, Structural)]
pub enum WriteEvent {
    /// The write took this many bytes.
    Wrote(usize),
    /// The port was not ready (`WouldBlock`).
    WouldBlock,
    /// Any other I/O error.
    Failed,
}

/// Why a send gave up.
#[derive(Debug, Clone, Copy, PartialEq, Eq, Structural)]
pub enum SendFailure {
    /// The port accepted no bytes.
    WriteZero,
    /// The write failed with an I/O error.
    Io,
}

/// What to do next while sending.
#[derive(Debug, Clone, Copy, PartialEq, Eq, Structural)]
pub enum SendStep {
    /// Write `data[from..]`.
    WriteFrom(usize),
    /// Flush the port, then ask for the next step.
    Flush,
    /// Wait briefly, then ask for the next step.
    Pause,
    /// All bytes were written.
    Done,
    /// The send failed.
    Fail(SendFailure),
}

/// Progress of a send that writes all of `len` bytes.
pub struct SendAll {
    len: usize,
    written: usize,
}

impl SendAll {
    /// Number of bytes to send.
    pub closed spec fn len(&self) -> nat {
        self.len as nat
    }

    /// Number of bytes the port has taken so far.
    pub closed spec fn written(&self) -> nat {
        self.written as nat
    }

    /// Start sending `len` bytes.
    pub fn new(len: usize) -> (r: Self)
        ensures
            r.len() == len,
            r.written() == 0,
    {
        SendAll { len, written: 0 }
    }

    /// Bytes written so far.
    pub fn written_count(&self) -> (n: usize)
        ensures
            n == self.written(),
    {
        self.written
    }

    /// The step that follows a state.
    pub open spec fn step_for(&self) -> SendStep {
        if self.written() < self.len() {
            SendStep::WriteFrom(self.written() as usize)
        } else {
            SendStep::Done
        }
    }

    /// What to do now: write the rest, or report that all bytes went out.
    pub fn next_step(&self) -> (s: SendStep)
        requires
            self.written() <= self.len(),
        ensures
            s == self.step_for(),
            self.written() < self.len() ==> s == SendStep::WriteFrom(self.written() as usize),
            self.written() == self.len() ==> s == SendStep::Done,
    {
        if self.written < self.len {
            SendStep::WriteFrom(self.written)
        } else {
            SendStep::Done
        }
    }

    /// Take in the outcome of a write of `data[written..]`.
    pub fn on_write(&mut self, event: WriteEvent) -> (s: SendStep)
        requires
            old(self).written() < old(self).len(),
            event matches WriteEvent::Wrote(n) ==> n <= old(self).len() - old(self).written(),
        ensures
            final(self).len() == old(self).len(),
            final(self).written() <= final(self).len(),
            match event {
                WriteEvent::Wrote(n) => if n == 0 {
                    final(self).written() == old(self).written() && s == SendStep::Fail(
                        SendFailure::WriteZero,
                    )
                } else {
                    final(self).written() == old(self).written() + n && s == SendStep::Flush
                },
                WriteEvent::WouldBlock => final(self).written() == old(self).written() && s
                    == SendStep::Pause,
                WriteEvent::Failed => final(self).written() == old(self).written() && s
                    == SendStep::Fail(SendFailure::Io),
            },
    {
        match event {
            WriteEvent::Wrote(n) => {
                if n == 0 {
                    SendStep::Fail(SendFailure::WriteZero)
                } else {
                    self.written = self.written + n;
                    SendStep::Flush
                }
            },
            WriteEvent::WouldBlock => SendStep::Pause,
            WriteEvent::Failed => SendStep::Fail(SendFailure::Io),
        }
    }
}

/// A send reports that it is done only once the port has taken every byte.
pub proof fn law_send_done_only_when_all_written(s: SendAll)
    requires
        s.written() <= s.len(),
    ensures
        s.step_for() == SendStep::Done <==> s.written() == s.len(),
        s.step_for() matches SendStep::WriteFrom(from) ==> from == s.written() && from < s.len(),
{
}

/// A fixed-size receive keeps reading into the rest of its buffer as long as
/// bytes are missing, and completes with the fixed size once none are: it never
/// gives up from its progress alone.
pub proof fn law_fixed_receive_reads_until_full(r: FixedReceive)
    requires
        r.received() <= r.target(),
    ensures
        r.received() < r.target() ==> r.step_for() == (ReceiveStep::ReadInto {
            start: r.received() as usize,
            end: r.target() as usize,
        }),
        r.received() == r.target() ==> r.step_for() == ReceiveStep::Complete(r.target() as usize),
        !(r.step_for() is Fail),
        !(r.step_for() is Pause),
        !(r.step_for() is Resume),
{
}

/// Once the timeout has expired a timed receive ends and reports what it has
/// received so far, however little; before that it reads while there is room.
pub proof fn law_timed_receive_stops_on_timeout(r: TimedReceive, timed_out: bool)
    requires
        r.wf(),
    ensures
        timed_out ==> r.step_for(timed_out) == ReceiveStep::Complete(r.received() as usize),
        !timed_out && r.received() < r.limit() ==> r.step_for(timed_out) == (ReceiveStep::ReadInto {
            start: r.received() as usize,
            end: r.limit() as usize,
        }),
        r.received() == r.limit() ==> r.step_for(timed_out) == ReceiveStep::Complete(
            r.limit() as usize,
        ),
{
}

/// A send writes the rest of its data as long as bytes are unwritten, and is
/// done once none are.
pub proof fn law_send_writes_until_done(s: SendAll)
    requires
        s.written() <= s.len(),
    ensures
        s.written() < s.len() ==> s.step_for() == SendStep::WriteFrom(s.written() as usize),
        s.written() == s.len() ==> s.step_for() == SendStep::Done,
{
}

} // verus!
