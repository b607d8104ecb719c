//! Plain value types shared by the balance queries.
use vstd::prelude::*;
use crate::numeric::{NumericError, decimal_value, is_decimal, parse_u64};

verus! {

/// A 128-bit unsigned amount, sent as a decimal string on the wire.
#[derive(Debug, Clone, Copy, PartialEq, Eq, Structural)]
pub struct U128(pub u128);

/// A 64-bit unsigned value, sent as a decimal string on the wire.
#[derive(Debug, Clone, Copy, PartialEq, Eq, Structural)]
pub struct U64(pub u64);

/// A 128-bit signed amount, sent as a decimal string on the wire.
#[derive(Debug, Clone, Copy, PartialEq, Eq, Structural)]
pub struct I128(pub i128);

/// A block, as read from the index: when it was made and its height.
#[derive(Debug, Clone, Copy, PartialEq, Eq, Structural)]
pub struct Block {
    pub timestamp: u64,
    pub height: u64,
}

impl Block {
    /// Reads a block from the decimal text the index stores it as.
    pub fn from_db_values(timestamp: &str, height: &str) -> (r: Result<Block, NumericError>)
        ensures
            r is Ok <==> is_decimal(timestamp@) && decimal_value(timestamp@) <= u64::MAX
                && is_decimal(height@) && decimal_value(height@) <= u64::MAX,
            r matches Ok(b) ==> b.timestamp == decimal_value(timestamp@) && b.height
                == decimal_value(height@),
    {
        let timestamp = match parse_u64(timestamp) {
            Ok(v) => v,
            Err(e) => return Err(e),
        };
        let height = match parse_u64(height) {
            Ok(v) => v,
            Err(e) => return Err(e),
        };
        Ok(Block { timestamp, height })
    }
}

/// Bytes that travel as base64 text.
#[derive(Debug, Clone)]
pub struct Base64VecU8(pub Vec<u8>);

/// What a token contract says about its token.
#[derive(Debug, Clone)]
pub struct FungibleTokenMetadata {
    pub spec: String,
    pub name: String,
    pub symbol: String,
    pub icon: Option<String>,
    pub reference: Option<String>,
    pub reference_hash: Option<Base64VecU8>,
    pub decimals: u8,
}

} // verus!
