use double_buffered_io::double_buffered_io::{
    InputAction, OutputAction, OutputFlow, OutputRequest, PipelineConfig, PipelineError, PipelineMetrics,
    PipelineState, ReceiveEvent,
};
use double_buffered_io::processor::{AddOneProcessor, DataProcessor, PassThroughProcessor};
use double_buffered_io::transport::Error;
use std::collections::VecDeque;
use std::time::Duration;

/// Stand-in for a transport: bytes waiting to be received, bytes sent so far.
struct MockTransport {
    sent_data: Vec<u8>,
    receive_data: VecDeque<u8>,
}

impl MockTransport {
    fn new() -> Self {
        Self { sent_data: Vec::new(), receive_data: VecDeque::new() }
    }

    fn add_input_data(&mut self, data: &[u8]) {
        self.receive_data.extend(data);
    }

    fn receive(&mut self, buffer: &mut [u8]) -> usize {
        let to_read = buffer.len().min(self.receive_data.len());
        for slot in buffer.iter_mut().take(to_read) {
            *slot = self.receive_data.pop_front().unwrap();
        }
        to_read
    }
}

/// Drive both contexts until the transport has nothing more to deliver.
fn pump<P: DataProcessor>(
    state: &mut PipelineState,
    processor: &P,
    transport: &mut MockTransport,
    config: &PipelineConfig,
) {
    let mut read_buffer = vec![0u8; config.read_chunk_size];
    loop {
        let n = transport.receive(&mut read_buffer);
        match state.on_receive(ReceiveEvent::Received(n)) {
            InputAction::Forward(request) => {
                let processed = processor.process(read_buffer[..n].to_vec()).unwrap();
                state.on_processed(&processed, 0);
                match state.on_output_request(request) {
                    OutputAction::Send(data) => {
                        assert_eq!(data.len(), request.byte_count);
                        transport.sent_data.extend_from_slice(&data);
                        state.on_sent(data.len());
                    }
                    OutputAction::Shutdown => panic!("unexpected shutdown"),
                }
            }
            InputAction::WaitIdle => break,
            InputAction::WaitAfterError => panic!("unexpected error"),
        }
    }
}

#[test]
fn test_exact_byte_correspondence() {
    let mut transport = MockTransport::new();
    let processor = PassThroughProcessor::new(Duration::from_millis(1));

    let config = PipelineConfig {
        buffer_size: 1024,
        max_processing_time: Duration::from_secs(1),
        processing_timeout: Duration::from_secs(1),
        timeout: Duration::from_secs(5),
        read_chunk_size: 128,
    };
    let mut state = PipelineState::new(&config);

    // Test various input sizes
    let test_cases = vec![
        vec![1, 2, 3, 4, 5], // 5 bytes
        vec![6; 10],         // 10 bytes
        vec![7; 100],        // 100 bytes
        vec![8, 9],          // 2 bytes
    ];

    let mut total_input = 0;
    for test_data in test_cases {
        total_input += test_data.len();
        transport.add_input_data(&test_data);
        pump(&mut state, &processor, &mut transport, &config);
    }

    // Verify exact correspondence
    let metrics = state.metrics();
    let input_bytes = metrics.input_bytes;
    let output_bytes = metrics.output_bytes;

    assert_eq!(input_bytes, total_input);
    assert_eq!(output_bytes, input_bytes, "Output must equal input");

    let sent_data = transport.sent_data.clone();
    assert_eq!(sent_data.len(), total_input, "Total sent must equal input");
}

#[test]
fn test_streaming_consistency() {
    let mut transport = MockTransport::new();
    let processor = PassThroughProcessor::new(Duration::from_millis(1));

    let config = PipelineConfig {
        buffer_size: 256,
        max_processing_time: Duration::from_secs(1),
        processing_timeout: Duration::from_secs(1),
        timeout: Duration::from_secs(5),
        read_chunk_size: 32,
    };
    let mut state = PipelineState::new(&config);

    // Stream data continuously
    for i in 0..50 {
        let data = vec![i as u8; 3];
        transport.add_input_data(&data);
        pump(&mut state, &processor, &mut transport, &config);
    }

    let metrics = state.metrics();
    assert_eq!(
        metrics.input_bytes, metrics.output_bytes,
        "Streaming must maintain byte correspondence"
    );
}

#[test]
fn test_add_one_pipeline() {
    let mut transport = MockTransport::new();
    let processor = AddOneProcessor::new();

    let config = PipelineConfig {
        buffer_size: 1024,
        max_processing_time: Duration::from_secs(1),
        timeout: Duration::from_secs(5),
        read_chunk_size: 128,
        processing_timeout: Duration::from_secs(1),
    };
    let mut state = PipelineState::new(&config);

    // Test data: each byte should be incremented by 1
    let test_data = vec![1, 2, 3, 254, 255]; // 255 should wrap to 0
    let _expected_output = vec![2, 3, 4, 255, 0];

    transport.add_input_data(&test_data);
    pump(&mut state, &processor, &mut transport, &config);

    let sent_data = transport.sent_data.clone();

    // Verify that exactly the same number of bytes were output as input
    assert_eq!(sent_data.len(), test_data.len());
}

#[test]
fn pipeline_output_follows_initial_zeros() {
    let mut transport = MockTransport::new();
    let processor = AddOneProcessor::new();
    let config = PipelineConfig::new(4, Duration::from_secs(1), Duration::from_secs(5), 2);
    let mut state = PipelineState::new(&config);
    transport.add_input_data(&[1, 2, 3, 4, 5, 6]);
    pump(&mut state, &processor, &mut transport, &config);
    // The first processed chunk pushes two of the initial zeros out; the other
    // two go out first, then the processed bytes follow in order.
    assert_eq!(transport.sent_data, vec![0, 0, 2, 3, 4, 5]);
}

#[test]
fn pipeline_pads_with_zeros_on_underflow() {
    let config = PipelineConfig::new(4, Duration::from_secs(1), Duration::from_secs(5), 16);
    let mut state = PipelineState::new(&config);
    // Nothing processed yet beyond the initial zeros: a request of 6 bytes underflows.
    let action = state.on_output_request(OutputRequest { byte_count: 6 });
    assert_eq!(action, OutputAction::Send(vec![0; 6]));
    assert_eq!(state.metrics().underflow_count, 1);
    // The buffer is empty now, so even processed data shorter than a request is padded.
    state.on_processed(&[5, 6], 0);
    let action = state.on_output_request(OutputRequest { byte_count: 3 });
    assert_eq!(action, OutputAction::Send(vec![5, 6, 0]));
    assert_eq!(state.metrics().underflow_count, 2);
    // An exact fit is no underflow.
    state.on_processed(&[7], 0);
    assert_eq!(state.on_output_request(OutputRequest { byte_count: 1 }), OutputAction::Send(vec![7]));
    assert_eq!(state.metrics().underflow_count, 2);
}

#[test]
fn pipeline_zero_byte_request_is_shutdown() {
    let config = PipelineConfig::default();
    let mut state = PipelineState::new(&config);
    let before = state.metrics();
    assert_eq!(state.on_output_request(OutputRequest { byte_count: 0 }), OutputAction::Shutdown);
    assert_eq!(state.metrics(), before);
}

#[test]
fn pipeline_counts_overflow_and_processing() {
    let config = PipelineConfig::new(4, Duration::from_secs(1), Duration::from_secs(5), 16);
    let mut state = PipelineState::new(&config);
    assert_eq!(state.on_processed(&[1, 2, 3], 12), 3);
    assert_eq!(state.on_processed(&[4, 5, 6], 7), 1);
    let m = state.metrics();
    assert_eq!(m.processing_count, 2);
    assert_eq!(m.processed_bytes, 4);
    assert_eq!(m.overflow_count, 1);
    assert_eq!(m.processing_time_ms, 7);
}

#[test]
fn pipeline_receive_events() {
    let config = PipelineConfig::default();
    let mut state = PipelineState::new(&config);
    assert_eq!(
        state.on_receive(ReceiveEvent::Received(9)),
        InputAction::Forward(OutputRequest { byte_count: 9 })
    );
    assert_eq!(state.on_receive(ReceiveEvent::Received(0)), InputAction::WaitIdle);
    assert_eq!(state.on_receive(ReceiveEvent::Failed), InputAction::WaitAfterError);
    assert_eq!(state.metrics().input_bytes, 9);
}

#[test]
fn pipeline_counters_wrap_around() {
    let config = PipelineConfig::default();
    let mut state = PipelineState::new(&config);
    state.on_receive(ReceiveEvent::Received(usize::MAX));
    state.on_receive(ReceiveEvent::Received(2));
    assert_eq!(state.metrics().input_bytes, 1);
    state.on_sent(usize::MAX);
    state.on_sent(2);
    assert_eq!(state.metrics().output_bytes, 1);
}

#[test]
fn pipeline_metrics_start_at_zero() {
    let m = PipelineMetrics::new();
    assert_eq!(m.input_bytes + m.output_bytes + m.processed_bytes, 0);
    assert_eq!(m.processing_count + m.overflow_count + m.underflow_count, 0);
    assert_eq!(m.processing_time_ms, 0);
    let state = PipelineState::new(&PipelineConfig::default());
    assert_eq!(state.metrics(), m);
}

#[test]
fn pipeline_config_values() {
    let c = PipelineConfig::new(10, Duration::from_millis(3), Duration::from_secs(2), 4);
    assert_eq!(c.buffer_size, 10);
    assert_eq!(c.read_chunk_size, 4);
    assert_eq!(c.max_processing_time, Duration::from_millis(3));
    assert_eq!(c.processing_timeout, Duration::from_millis(3));
    assert_eq!(c.timeout, Duration::from_secs(2));

    let d = PipelineConfig::default();
    assert_eq!(d.buffer_size, 8192);
    assert_eq!(d.read_chunk_size, 1024);
    assert_eq!(d.max_processing_time, Duration::from_secs(1));
    assert_eq!(d.processing_timeout, Duration::from_secs(1));
    assert_eq!(d.timeout, Duration::from_secs(5));
}

#[test]
fn pipeline_error_from_transport_error() {
    let e: PipelineError = PipelineError::from(Error::Timeout);
    assert!(matches!(e, PipelineError::TransportError(Error::Timeout)));
    let e: PipelineError = Error::BufferTooSmall.into();
    assert!(matches!(e, PipelineError::TransportError(Error::BufferTooSmall)));
}

#[test]
fn pipeline_send_result_decides_whether_output_goes_on() {
    let config = PipelineConfig::default();
    let mut state = PipelineState::new(&config);
    assert_eq!(state.on_send_result(5, true), OutputFlow::Continue);
    assert_eq!(state.metrics().output_bytes, 5);
    assert_eq!(state.on_send_result(7, false), OutputFlow::Stop);
    assert_eq!(state.metrics().output_bytes, 5);
}

#[test]
fn pipeline_run_counters_match_forwarded_and_served_sizes() {
    let config = PipelineConfig::new(64, Duration::from_secs(1), Duration::from_secs(5), 16);
    let mut state = PipelineState::new(&config);
    let events = [
        ReceiveEvent::Received(4),
        ReceiveEvent::Received(0),
        ReceiveEvent::Failed,
        ReceiveEvent::Received(9),
        ReceiveEvent::Received(1),
    ];
    let mut forwarded = Vec::new();
    for event in events {
        if let InputAction::Forward(request) = state.on_receive(event) {
            forwarded.push(request);
        }
    }
    assert_eq!(forwarded.iter().map(|r| r.byte_count).collect::<Vec<_>>(), vec![4, 9, 1]);
    assert_eq!(state.metrics().input_bytes, 14);
    let mut sent_total = 0;
    for request in forwarded {
        if let OutputAction::Send(data) = state.on_output_request(request) {
            sent_total += data.len();
            state.on_send_result(data.len(), true);
        }
    }
    assert_eq!(sent_total, 14);
    assert_eq!(state.metrics().output_bytes, 14);
}
