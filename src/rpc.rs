//! The JSON-RPC account provider's pure parts: reading hex quantities,
//! telling accounts apart by their code, and typed failures.

use crate::portfolio::AccountType;
use crate::text::{chars_of, parse_unsigned, unsigned_value};
use vstd::prelude::*;

verus! {

/// Where and for whom to query a chain.
pub struct EVMProvider {
    pub address: String,
    pub rpc_url: String,
}

impl EVMProvider {
    pub fn new(address: String, rpc_url: String) -> (r: Self)
        ensures
            r.address == address,
            r.rpc_url == rpc_url,
    {
        EVMProvider { address, rpc_url }
    }
}

/// Identity of a chain.
pub struct ChainInfo {
    pub chain_id: u64,
}

/// A quantity that is not a hexadecimal number in range.
#[derive(Debug, Clone, Copy, PartialEq, Eq, Structural)]
pub struct HexError;

/// Why a call to the provider failed.
#[derive(Debug, Clone, PartialEq, Eq)]
pub enum RpcError {
    /// The provider could not be reached or did not answer with JSON.
    Unreachable(String),
    /// The provider answered with an error object.
    Rpc { code: String, message: String },
    /// The answer had neither a result nor an error.
    MissingResult,
    /// The result was not of the expected form.
    Malformed(String),
}

/// `s` without its leading `0x` prefixes, all of them.
pub open spec fn strip_hex_prefix(s: Seq<char>) -> Seq<char>
    decreases s.len(),
{
    if s.len() >= 2 && s[0] == '0' && s[1] == 'x' {
        strip_hex_prefix(s.subrange(2, s.len() as int))
    } else {
        s
    }
}

/// The value of hex quantity `s` (leading `0x` prefixes dropped), if it is
/// at most `max`.
pub open spec fn hex_value(s: Seq<char>, max: int) -> Option<int> {
    unsigned_value(strip_hex_prefix(s), 16, max)
}

/// Reads hex quantity `s`, if at most `max`.
fn parse_hex(s: &str, max: u128) -> (r: Result<u128, HexError>)
    ensures
        r matches Ok(v) ==> hex_value(s@, max as int) == Some(v as int),
        r is Err ==> hex_value(s@, max as int) is None,
{
    let chars = chars_of(s);
    let n = chars.len();
    let mut i: usize = 0;
    assert(s@.subrange(0, n as int) =~= s@);
    while i < n && n - i >= 2 && chars[i] == '0' && chars[i + 1] == 'x'
        invariant
            chars@ == s@,
            n == s@.len(),
            i <= n,
            strip_hex_prefix(s@) == strip_hex_prefix(s@.subrange(i as int, n as int)),
        decreases n - i,
    {
        proof {
            let t = s@.subrange(i as int, n as int);
            assert(t.subrange(2, t.len() as int) =~= s@.subrange(i + 2, n as int));
        }
        i = i + 2;
    }
    let rest = s.substring_char(i, n);
    proof {
        let t = s@.subrange(i as int, n as int);
        assert(rest@ == t);
        assert(!(t.len() >= 2 && t[0] == '0' && t[1] == 'x'));
    }
    match parse_unsigned(rest, 16, max) {
        Some(v) => Ok(v),
        None => Err(HexError),
    }
}

/// Reads a hex quantity as a `u128`, after any leading `0x` prefixes.
pub fn parse_hex_u128(s: &str) -> (r: Result<u128, HexError>)
    ensures
        r matches Ok(v) ==> hex_value(s@, u128::MAX as int) == Some(v as int),
        r is Err ==> hex_value(s@, u128::MAX as int) is None,
{
    parse_hex(s, u128::MAX)
}

/// Reads a hex quantity as a `u64`, after any leading `0x` prefixes.
pub fn parse_hex_u64(s: &str) -> (r: Result<u64, HexError>)
    ensures
        r matches Ok(v) ==> hex_value(s@, u64::MAX as int) == Some(v as int),
        r is Err ==> hex_value(s@, u64::MAX as int) is None,
{
    match parse_hex(s, u64::MAX as u128) {
        Ok(v) => Ok(v as u64),
        Err(e) => Err(e),
    }
}

/// The chain that an `eth_chainId` result names.
pub fn chain_info_from_hex(hex_id: &str) -> (r: Result<ChainInfo, HexError>)
    ensures
        r matches Ok(c) ==> hex_value(hex_id@, u64::MAX as int) == Some(c.chain_id as int),
        r is Err ==> hex_value(hex_id@, u64::MAX as int) is None,
{
    match parse_hex_u64(hex_id) {
        Ok(id) => Ok(ChainInfo { chain_id: id }),
        Err(e) => Err(e),
    }
}

/// The kind of account whose `eth_getCode` result is `code`: an externally
/// owned account has no code.
pub fn account_type_from_code(code: &str) -> (r: AccountType)
    ensures
        r == (if code@.len() == 0 {
            AccountType::EOA
        } else {
            AccountType::CONTRACT
        }),
{
    if code.is_empty() {
        AccountType::EOA
    } else {
        AccountType::CONTRACT
    }
}

/// The outcome of a call from the parts of the provider's answer: its error
/// object (code and message as written), else its result; an error object
/// always wins, so that a failure never reads as a value.
pub fn rpc_outcome(error: Option<(String, String)>, result: Option<String>) -> (r: Result<
    String,
    RpcError,
>)
    ensures
        error matches Some(e) ==> r == Err::<String, RpcError>(
            RpcError::Rpc { code: e.0, message: e.1 },
        ),
        error is None && result is None ==> r == Err::<String, RpcError>(RpcError::MissingResult),
        error is None ==> (result matches Some(v) ==> r == Ok::<String, RpcError>(v)),
{
    match error {
        Some((code, message)) => Err(RpcError::Rpc { code, message }),
        None => match result {
            Some(v) => Ok(v),
            None => Err(RpcError::MissingResult),
        },
    }
}

} // verus!
