use vstd::prelude::*;

verus! {

/// The chain whose block headers a circuit proves.
#[derive(Clone, Copy, Debug, PartialEq, Eq, Structural)]
pub enum Network {
    Mainnet,
    Goerli,
}

/// How much of the chain a block-header circuit treats as final; `Unfinalized`
/// proves the headers with no finality claim.
#[derive(Clone, Copy, Debug, PartialEq, Eq, Structural)]
pub enum Finality {
    Unfinalized,
    Evm(usize),
    Merkle,
}

/// Describes one family of block-header circuits: the recursion depth that
/// bounds a task's span, the depth at which recursion starts, the finality
/// mode and the network.
#[derive(Clone, Copy, Debug, PartialEq, Eq, Structural)]
pub struct CircuitType {
    pub depth: usize,
    pub initial_depth: usize,
    pub finality: Finality,
    pub network: Network,
}

impl CircuitType {
    pub fn new(depth: usize, initial_depth: usize, finality: Finality, network: Network) -> (r:
        CircuitType)
        ensures
            r.depth == depth,
            r.initial_depth == initial_depth,
            r.finality == finality,
            r.network == network,
    {
        CircuitType { depth, initial_depth, finality, network }
    }
}

} // verus!
