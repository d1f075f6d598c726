use vstd::prelude::*;

use crate::contract::Fluxity;
use crate::effects::{Effect, Recipient};
use crate::types::Address;
use crate::utils::{calculate_lockup_fee, fits_i128, lockup_fee};

verus! {

/// The effects of charging the lockup fee: nothing when the fee is not
/// positive, else one pull of the fee in `xlm` from the sender to the admin.
pub open spec fn fee_effects(
    xlm: Address,
    sender: Address,
    admin: Address,
    start_date: u64,
    end_date: u64,
    monthly_fee: int,
) -> Seq<Effect> {
    let fee = lockup_fee(start_date, end_date, monthly_fee);
    if fee > 0 {
        seq![
            Effect::TransferFrom {
                token: xlm,
                from: sender,
                recipient: Recipient::Account(admin),
                amount: fee as i128,
            },
        ]
    } else {
        seq![]
    }
}

/// Pays `amount` of `token` from the contract to `to`.
pub fn transfer(token: &Address, to: &Address, amount: &i128, effects: &mut Vec<Effect>)
    ensures
        final(effects)@ == old(effects)@.push(
            Effect::Transfer { token: *token, to: *to, amount: *amount },
        ),
{
    effects.push(Effect::Transfer { token: *token, to: *to, amount: *amount });
}

/// Pulls `amount` of `token` from `from` into the contract, out of the
/// allowance `from` gave the contract.
pub fn transfer_from(token: &Address, from: &Address, amount: &i128, effects: &mut Vec<Effect>)
    ensures
        final(effects)@ == old(effects)@.push(
            Effect::TransferFrom {
                token: *token,
                from: *from,
                recipient: Recipient::Contract,
                amount: *amount,
            },
        ),
{
    effects.push(
        Effect::TransferFrom { token: *token, from: *from, recipient: Recipient::Contract, amount: *amount },
    );
}

/// Charges the fee for a lockup from `start_date` to `end_date`, in the
/// contract's fee token, from `sender` to `admin`, when the fee is positive.
pub fn take_xlm_fee(
    state: &Fluxity,
    start_date: u64,
    end_date: u64,
    sender: Address,
    admin: Address,
    effects: &mut Vec<Effect>,
)
    requires
        state.xlm is Some,
        start_date <= end_date,
        fits_i128(lockup_fee(start_date, end_date, state@.fee() as int)),
    ensures
        final(effects)@ == old(effects)@ + fee_effects(
            state.xlm->0,
            sender,
            admin,
            start_date,
            end_date,
            state@.fee() as int,
        ),
{
    let xlm = crate::storage::get_xlm(state);
    let monthly_fee = crate::storage::get_monthly_fee(state);
    let fee = calculate_lockup_fee(start_date, end_date, monthly_fee);
    if fee > 0 {
        effects.push(
            Effect::TransferFrom { token: xlm, from: sender, recipient: Recipient::Account(admin), amount: fee },
        );
    }
    assert(effects@ =~= old(effects)@ + fee_effects(
        xlm,
        sender,
        admin,
        start_date,
        end_date,
        monthly_fee as int,
    ));
}

} // verus!
