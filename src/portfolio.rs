//! Account data shown on the portfolio page.

use vstd::prelude::*;

verus! {

/// Where to query and for which address.
pub struct Inputs {
    pub rpc_url: String,
    pub user_address: String,
}

/// Identity of a chain.
pub struct ChainInfo {
    pub chain_id: u64,
}

/// Whether an account is externally owned or holds contract code.
#[allow(non_camel_case_types, clippy::upper_case_acronyms)]
#[derive(Debug, Clone, Copy, PartialEq, Eq, Structural)]
pub enum AccountType {
    EOA,
    CONTRACT,
}

} // verus!
