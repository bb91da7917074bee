use vstd::prelude::*;
use vstd::arithmetic::power2::{lemma2_to64, lemma_pow2_strictly_increases};
use vstd::bits::{lemma_u64_shl_is_mul, lemma_u64_pow2_no_overflow};
use crate::chunk::{Task, chunk, is_chunking, stride};
use crate::circuit::{CircuitType, Finality, Network};
use crate::dispatch::Receipt;
use crate::encode::{base64_len, base64_of, encode_proof};

verus! {

/// A request to prove the headers of blocks `start_block_num..=end_block_num`.
pub struct Input {
    pub start_block_num: u32,
    pub end_block_num: u32,
}

/// The answer to a request: one encoded proof.
pub struct Output {
    pub proof: String,
}

impl Input {
    pub fn new(start_block_num: u32, end_block_num: u32) -> (r: Input)
        ensures
            r.start_block_num == start_block_num,
            r.end_block_num == end_block_num,
    {
        Input { start_block_num, end_block_num }
    }
}

/// Why a block-range request is refused before any work starts.
#[derive(Clone, Copy, Debug, PartialEq, Eq, Structural)]
pub enum RequestError {
    /// The range ends before it starts.
    EndBeforeStart,
    /// The range holds more blocks than one circuit instance encodes at the configured depth.
    SpanTooLarge,
}

/// Recursion depth of the block-header circuits that serve requests.
pub const HEADER_MAX_DEPTH: usize = 2;

/// Depth at which the block-header recursion starts.
pub const HEADER_INITIAL_DEPTH: usize = 2;

pub open spec fn header_circuit_type() -> CircuitType {
    CircuitType {
        depth: HEADER_MAX_DEPTH,
        initial_depth: HEADER_INITIAL_DEPTH,
        finality: Finality::Unfinalized,
        network: Network::Goerli,
    }
}

/// The error, if any, that the range `[start, end]` meets at `depth`.
pub open spec fn range_error(start: int, end: int, depth: nat) -> Option<RequestError> {
    if end < start {
        Some(RequestError::EndBeforeStart)
    } else if end - start >= stride(depth) {
        Some(RequestError::SpanTooLarge)
    } else {
        None
    }
}

/// Checks that `[start, end]` is a non-empty range of at most `2^depth` blocks.
pub fn validate_range(start: u32, end: u32, depth: usize) -> (r: Result<(), RequestError>)
    ensures
        match range_error(start as int, end as int, depth as nat) {
            Some(e) => r == Err::<(), RequestError>(e),
            None => r is Ok,
        },
{
    if end < start {
        return Err(RequestError::EndBeforeStart);
    }
    if depth >= 32 {
        proof {
            lemma2_to64();
            if depth > 32 {
                lemma_pow2_strictly_increases(32, depth as nat);
            }
        }
        return Ok(());
    }
    proof {
        lemma_u64_pow2_no_overflow(depth as nat);
        lemma_u64_shl_is_mul(1, depth as u64);
    }
    let w: u64 = 1u64 << (depth as u64);
    if (end - start) as u64 >= w {
        Err(RequestError::SpanTooLarge)
    } else {
        Ok(())
    }
}

/// The circuit type that serves block-header requests.
pub fn header_circuit() -> (r: CircuitType)
    ensures
        r == header_circuit_type(),
{
    CircuitType::new(HEADER_MAX_DEPTH, HEADER_INITIAL_DEPTH, Finality::Unfinalized, Network::Goerli)
}

/// Validates a block-range request and splits it into tasks for the header circuit.
pub fn plan_tasks(input: &Input) -> (r: Result<Vec<Task>, RequestError>)
    ensures
        match range_error(
            input.start_block_num as int,
            input.end_block_num as int,
            HEADER_MAX_DEPTH as nat,
        ) {
            Some(e) => r == Err::<Vec<Task>, RequestError>(e),
            None => r is Ok && is_chunking(
                r->Ok_0@,
                input.start_block_num as int,
                input.end_block_num as int,
                HEADER_MAX_DEPTH as nat,
                header_circuit_type(),
            ),
        },
{
    match validate_range(input.start_block_num, input.end_block_num, HEADER_MAX_DEPTH) {
        Err(e) => Err(e),
        Ok(()) => Ok(chunk(input.start_block_num, input.end_block_num, HEADER_MAX_DEPTH, header_circuit())),
    }
}

/// The receipt of a worker that proved task `index` with these proof bytes.
pub fn proved_receipt(index: usize, proof: &Vec<u8>) -> (r: Receipt)
    requires
        base64_len(proof@.len()) <= usize::MAX,
    ensures
        r.index == index,
        r.payload is Some,
        r.payload->Some_0@ == base64_of(proof@),
{
    Receipt { index, payload: Some(encode_proof(proof)) }
}

/// The receipt of a worker whose task `index` failed.
pub fn failed_receipt(index: usize) -> (r: Receipt)
    ensures
        r.index == index,
        r.payload is None,
{
    Receipt { index, payload: None }
}

/// The response to a request whose tasks yielded `proofs`, in task order:
/// the proof of the last task, the one that covers the end of the range.
pub fn respond(proofs: Vec<String>) -> (r: Option<Output>)
    ensures
        proofs@.len() == 0 ==> r is None,
        proofs@.len() > 0 ==> r is Some && r->Some_0.proof@ == proofs@.last()@,
{
    let mut proofs = proofs;
    match proofs.pop() {
        Some(p) => Some(Output { proof: p }),
        None => None,
    }
}

} // verus!
