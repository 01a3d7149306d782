//! Data processors that turn each received chunk into the bytes to send back.
use std::time::Duration;
use vstd::prelude::*;

use crate::double_buffered_io::PipelineError;

verus! {

/// Generic data processor trait.
pub trait DataProcessor {
    /// Process a buffer of data.
    ///
    /// # Arguments
    /// * `input` - Input data buffer
    ///
    /// # Returns
    /// * Processed data
    fn process(&self, input: Vec<u8>) -> Result<Vec<u8>, PipelineError>;
}

/// Pass-through processor that just delays and returns input.
pub struct PassThroughProcessor {
    delay: Duration,
}

impl PassThroughProcessor {
    /// The delay this processor waits before handing its input back.
    pub closed spec fn configured_delay(&self) -> Duration {
        self.delay
    }

    pub fn new(delay: Duration) -> (r: Self)
        ensures
            r.configured_delay() == delay,
    {
        Self { delay }
    }

    /// The delay to wait before each result is handed back.
    pub fn delay(&self) -> (d: Duration)
        ensures
            d == self.configured_delay(),
    {
        self.delay
    }
}

impl DataProcessor for PassThroughProcessor {
    /// Hands the input back unchanged; the waiting happens around the call.
    fn process(&self, input: Vec<u8>) -> (r: Result<Vec<u8>, PipelineError>)
        ensures
            r matches Ok(out) && out@ == input@,
    {
        Ok(input)
    }
}

/// Each byte plus one, wrapping 255 to 0.
pub open spec fn add_one_all(input: Seq<u8>) -> Seq<u8> {
    input.map_values(
        |b: u8|
            if b == 255 {
                0u8
            } else {
                (b + 1) as u8
            },
    )
}

/// AddOneProcessor that adds one to all elements in the input data.
pub struct AddOneProcessor;

impl AddOneProcessor {
    pub fn new() -> (r: Self) {
        Self
    }
}

impl DataProcessor for AddOneProcessor {
    fn process(&self, input: Vec<u8>) -> (r: Result<Vec<u8>, PipelineError>)
        ensures
            r matches Ok(out) && out@ == add_one_all(input@),
            r matches Ok(out) && out@.len() == input@.len() && forall|i: int|
                0 <= i < input@.len() ==> #[trigger] out@[i] == input@[i].wrapping_add(1),
    {
        let mut output: Vec<u8> = Vec::new();
        let mut i: usize = 0;
        while i < input.len()
            invariant
                i <= input@.len(),
                output@ == add_one_all(input@.take(i as int)),
            decreases input@.len() - i,
        {
            output.push(input[i].wrapping_add(1));
            proof {
                assert(input@.take(i + 1) =~= input@.take(i as int).push(input@[i as int]));
                assert(add_one_all(input@.take(i + 1)) =~= add_one_all(input@.take(i as int)).push(
                    output@[i as int],
                ));
            }
            i = i + 1;
        }
        assert(input@.take(input@.len() as int) =~= input@);
        Ok(output)
    }
}

/// Adding one works byte by byte: the result is as long as the input, and each
/// byte is the input byte at the same position plus one, with 255 wrapping to 0.
pub proof fn law_add_one_bytewise(input: Seq<u8>)
    ensures
        add_one_all(input).len() == input.len(),
        forall|i: int|
            0 <= i < input.len() ==> #[trigger] add_one_all(input)[i] == input[i].wrapping_add(1),
        forall|i: int|
            0 <= i < input.len() ==> (#[trigger] add_one_all(input)[i] as int) == (input[i] + 1) % 256,
{
    assert forall|i: int| 0 <= i < input.len() implies (#[trigger] add_one_all(input)[i] as int) == (
    input[i] + 1) % 256 by {
        if input[i] == 255 {
            assert((255int + 1) % 256 == 0);
        } else {
            assert(0 <= input[i] + 1 < 256);
            vstd::arithmetic::div_mod::lemma_small_mod((input[i] + 1) as nat, 256);
        }
    }
}

} // verus!
