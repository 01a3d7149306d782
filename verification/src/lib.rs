//! Double-buffered I/O pipeline library.
//!
//! The library holds the decisions of an event-driven I/O pipeline with
//! double-buffering for continuous data flow: the output ring buffer, the
//! processors, the bookkeeping of the input and output contexts, and the
//! progress rules of the serial transports.
pub mod diagnostics;
pub mod double_buffered_io;
pub mod processor;
pub mod ring_buffer;
pub mod transport;

pub use double_buffered_io::{PipelineConfig, PipelineError, PipelineMetrics, PipelineState};
pub use processor::{AddOneProcessor, DataProcessor, PassThroughProcessor};
pub use ring_buffer::RingBuffer;
pub use transport::Error;
