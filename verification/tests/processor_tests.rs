use double_buffered_io::processor::{AddOneProcessor, DataProcessor, PassThroughProcessor};
use std::time::Duration;

#[test]
fn test_pass_through_processor() {
    let processor = PassThroughProcessor::new(Duration::from_millis(1));
    let input = vec![1, 2, 3, 4, 5];
    let output = processor.process(input.clone()).unwrap();
    assert_eq!(input, output);
}

#[test]
fn test_add_one_processor() {
    let processor = AddOneProcessor::new();
    let input = vec![1, 2, 3, 254, 255];
    let output = processor.process(input).unwrap();
    assert_eq!(output, vec![2, 3, 4, 255, 0]); // 255 + 1 wraps to 0
}

#[test]
fn test_add_one_processor_directly() {
    let processor = AddOneProcessor::new();
    let input = vec![1, 2, 3, 254, 255];
    let output = processor.process(input).unwrap();

    assert_eq!(output, vec![2, 3, 4, 255, 0]);
}

#[test]
fn pass_through_keeps_its_delay() {
    let processor = PassThroughProcessor::new(Duration::from_millis(7));
    assert_eq!(processor.delay(), Duration::from_millis(7));
}

#[test]
fn add_one_on_empty_and_all_values() {
    let processor = AddOneProcessor::new();
    assert_eq!(processor.process(Vec::new()).unwrap(), Vec::<u8>::new());
    let all: Vec<u8> = (0..=255u8).collect();
    let out = processor.process(all.clone()).unwrap();
    assert_eq!(out.len(), 256);
    for (i, b) in out.iter().enumerate() {
        assert_eq!(*b, all[i].wrapping_add(1));
    }
}
