use vstd::prelude::*;

use crate::contract::{Fluxity, FluxityView};
use crate::data_key::DataKey;
use crate::effects::Effect;
use crate::errors::CustomErrors;
use crate::types::{Address, Lockup};

verus! {

broadcast use vstd::std_specs::hash::group_hash_axioms;

/// Reads the lockup stored under `id`.
pub fn get_lockup_by_id(state: &Fluxity, id: &u64) -> (r: Result<Lockup, CustomErrors>)
    ensures
        match r {
            Ok(lockup) => state@.lockups.contains_key(*id) && lockup == state@.lockups[*id],
            Err(e) => !state@.lockups.contains_key(*id) && e == CustomErrors::LockupNotFound,
        },
{
    match state.lockups.get(id) {
        None => Err(CustomErrors::LockupNotFound),
        Some(lockup) => Ok(*lockup),
    }
}

/// The id the next lockup gets: zero until a lockup was created.
pub fn get_latest_lockup_id(state: &Fluxity) -> (id: u64)
    ensures
        id == state@.latest_id(),
{
    match state.latest_lockup_id {
        Some(id) => id,
        None => 0,
    }
}

/// Records that the ids up to `id` are taken.
pub fn increment_latest_lockup_id(state: &mut Fluxity, id: &u64, effects: &mut Vec<Effect>)
    requires
        *id < u64::MAX,
    ensures
        final(state)@ == (FluxityView { latest_lockup_id: Some((*id + 1) as u64), ..old(state)@ }),
        final(effects)@ == old(effects)@.push(Effect::Save { key: DataKey::LatestLockupId }),
{
    state.latest_lockup_id = Some(*id + 1);
    effects.push(Effect::Save { key: DataKey::LatestLockupId });
}

/// Stores `lockup` under `id`.
pub fn set_lockup(state: &mut Fluxity, id: u64, lockup: &Lockup, effects: &mut Vec<Effect>)
    ensures
        final(state)@ == (FluxityView {
            lockups: old(state)@.lockups.insert(id, *lockup),
            ..old(state)@
        }),
        final(effects)@ == old(effects)@.push(Effect::Save { key: DataKey::Lockup(id) }),
{
    state.lockups.insert(id, *lockup);
    effects.push(Effect::Save { key: DataKey::Lockup(id) });
}

/// Stores the admin.
pub fn set_admin(state: &mut Fluxity, admin: Address, effects: &mut Vec<Effect>)
    ensures
        final(state)@ == (FluxityView { admin: Some(admin), ..old(state)@ }),
        final(effects)@ == old(effects)@.push(Effect::Save { key: DataKey::Admin }),
{
    state.admin = Some(admin);
    effects.push(Effect::Save { key: DataKey::Admin });
}

/// The admin; the contract must have been initialized.
pub fn get_admin(state: &Fluxity) -> (admin: Address)
    requires
        state.admin is Some,
    ensures
        admin == state.admin->0,
{
    match state.admin {
        Some(admin) => admin,
        None => {
            proof {
                assert(false);
            }
            state.admin.unwrap()
        },
    }
}

/// Stores the monthly fee.
pub fn set_monthly_fee(state: &mut Fluxity, fee: i128, effects: &mut Vec<Effect>)
    ensures
        final(state)@ == (FluxityView { monthly_fee: Some(fee), ..old(state)@ }),
        final(effects)@ == old(effects)@.push(Effect::Save { key: DataKey::MonthlyFee }),
{
    state.monthly_fee = Some(fee);
    effects.push(Effect::Save { key: DataKey::MonthlyFee });
}

/// The monthly fee: zero until one was set.
pub fn get_monthly_fee(state: &Fluxity) -> (fee: i128)
    ensures
        fee == state@.fee(),
{
    match state.monthly_fee {
        Some(fee) => fee,
        None => 0,
    }
}

/// Stores the token the fee is paid in.
pub fn set_xlm(state: &mut Fluxity, xlm: Address, effects: &mut Vec<Effect>)
    ensures
        final(state)@ == (FluxityView { xlm: Some(xlm), ..old(state)@ }),
        final(effects)@ == old(effects)@.push(Effect::Save { key: DataKey::Xlm }),
{
    state.xlm = Some(xlm);
    effects.push(Effect::Save { key: DataKey::Xlm });
}

/// The token the fee is paid in; the contract must have been initialized.
pub fn get_xlm(state: &Fluxity) -> (xlm: Address)
    requires
        state.xlm is Some,
    ensures
        xlm == state.xlm->0,
{
    match state.xlm {
        Some(xlm) => xlm,
        None => {
            proof {
                assert(false);
            }
            state.xlm.unwrap()
        },
    }
}

} // verus!
