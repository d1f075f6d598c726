use vstd::prelude::*;

use crate::data_key::DataKey;
use crate::types::Address;

verus! {

/// The events the contract publishes, each with the id of its lockup.
#[derive(Clone, Copy, PartialEq, Eq, Structural, Debug)]
pub enum EventKind {
    Created,
    Cancelled,
    Withdrawn,
    Topup,
}

/// Where tokens pulled with an allowance go.
#[derive(Clone, Copy, PartialEq, Eq, Debug)]
pub enum Recipient {
    /// The contract's own balance.
    Contract,
    /// Another account.
    Account(Address),
}

/// One step of the work a contract call hands to its host, in the order the
/// call performs it: checking an authorization, moving tokens, persisting a
/// key the call wrote, publishing an event.
#[derive(Clone, Copy, PartialEq, Eq, Debug)]
pub enum Effect {
    /// The call goes on only if `address` authorized it.
    RequireAuth { address: Address },
    /// The contract spends the allowance that `from` gave it on `token`,
    /// moving `amount` from `from` to `recipient`.
    TransferFrom { token: Address, from: Address, recipient: Recipient, amount: i128 },
    /// The contract pays `amount` of `token` out of its own balance to `to`.
    Transfer { token: Address, to: Address, amount: i128 },
    /// The value under `key` changed and is to be persisted.
    Save { key: DataKey },
    /// An event of `kind` about lockup `id`.
    Publish { kind: EventKind, id: u64 },
}

} // verus!
