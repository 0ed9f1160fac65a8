//! Typed field keys for the per-chain transaction context: each unit
//! struct names one field a transaction builder reads, and `FieldKey`
//! ties it to that field's value type.
use vstd::prelude::*;

use crate::snapshot::ChainStatus;

verus! {

/// Ties a field-key marker to the type of the value it names.
pub trait FieldKey {
    type Value;
}

/// The signing key entry used to sign transactions, kept as an opaque
/// byte blob by the core.
pub struct KeyEntry;

impl FieldKey for KeyEntry {
    type Value = Vec<u8>;
}

/// The account's current sequence number (nonce).
pub struct AccountSequence;

impl FieldKey for AccountSequence {
    type Value = u64;
}

/// The account's number on chain.
pub struct AccountNumber;

impl FieldKey for AccountNumber {
    type Value = u64;
}

/// The bech32-style address flavour, carried as its prefix bytes.
pub struct AddressType;

impl FieldKey for AddressType {
    type Value = Vec<u8>;
}

/// The memo attached to every transaction.
pub struct Memo;

impl FieldKey for Memo {
    type Value = Vec<u8>;
}

/// Extension options appended to the transaction body, each an
/// encoded envelope.
pub struct ExtensionOptions;

impl FieldKey for ExtensionOptions {
    type Value = Vec<crate::header::Any>;
}

/// The identifier of the chain transactions are bound for.
pub struct ChainId;

impl FieldKey for ChainId {
    type Value = crate::ids::ChainId;
}

/// The RPC endpoint handle, modelled by its latest known status.
pub struct RpcClient;

impl FieldKey for RpcClient {
    type Value = ChainStatus;
}

/// The RPC endpoint address, as a URL in bytes.
pub struct RpcAddress;

impl FieldKey for RpcAddress {
    type Value = Vec<u8>;
}

} // verus!
