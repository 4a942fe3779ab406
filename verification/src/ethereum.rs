//! Errors of the Ethereum adapter that carry no outside data.

use vstd::prelude::*;

verus! {

/// An error that can occur when trying to obtain the state of a contract.
#[derive(Clone, Copy, Debug, PartialEq, Eq, Structural)]
pub enum EthereumContractStateError {
    Failed,
}

} // verus!
