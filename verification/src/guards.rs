use vstd::prelude::*;

use crate::contract::Fluxity;
use crate::model::{
    cancel_receiver_part, cancel_refusal, create_refusal, released, split_computable,
    topup_computable, topup_refusal, withdraw_reaches_split,
};
use crate::storage;
use crate::types::{Lockup, LockupInput};
use crate::utils::{additional_time_computable, fits_i128, lockup_fee, MONTH_IN_SECONDS};

verus! {

broadcast use vstd::std_specs::hash::group_hash_axioms;

/// Whether splitting `lockup` at `now` would overflow.
fn split_overflows(lockup: &Lockup, now: u64) -> (overflows: bool)
    ensures
        overflows == !split_computable(*lockup, now),
{
    if lockup.start_date < now && lockup.cliff_date < now && now < lockup.end_date {
        let proceeded = (now - lockup.start_date) as i128;
        if lockup.amount.checked_mul(proceeded).is_none() {
            return true;
        }
        if lockup.is_vesting {
            let period = lockup.rate.in_seconds() as i128;
            if lockup.amount.checked_mul(period).is_none() {
                return true;
            }
        }
    }
    false
}

/// Whether what `lockup` released at `now`, less what was withdrawn, overflows.
fn unwithdrawn_overflows(lockup: &Lockup, now: u64) -> (overflows: bool)
    requires
        split_computable(*lockup, now),
    ensures
        overflows == !fits_i128(released(*lockup, now) - lockup.withdrawn),
{
    let amounts = Fluxity::lockup_amounts(lockup, now);
    amounts.receiver_amount.checked_sub(lockup.withdrawn).is_none()
}

impl Fluxity {
    /// Whether computing the fee for a lockup from `start_date` to `end_date`
    /// would make the contract panic: when the end is before the start, or
    /// when the fee overflows.
    pub fn calculate_fee_panics(&self, start_date: u64, end_date: u64) -> (panics: bool)
        ensures
            panics == !(start_date <= end_date && fits_i128(
                lockup_fee(start_date, end_date, self@.fee() as int),
            )),
    {
        if start_date > end_date {
            return true;
        }
        let months_plus = ((end_date - start_date) / MONTH_IN_SECONDS + 1) as i128;
        months_plus.checked_mul(storage::get_monthly_fee(self)).is_none()
    }

    /// Whether creating a lockup from `params` would make the contract panic:
    /// when the checks pass on a contract that was not initialized, or when
    /// the fee or the next id overflows.
    pub fn create_panics(&self, params: &LockupInput) -> (panics: bool)
        ensures
            panics == !self@.create_computable(*params),
    {
        if params.amount <= 0 || params.sender == params.receiver || params.start_date
            >= params.end_date || params.cancellable_date > params.end_date || params.cliff_date
            < params.start_date || params.cliff_date > params.end_date {
            assert(create_refusal(*params) is Some);
            return false;
        }
        if self.admin.is_none() || self.xlm.is_none() {
            return true;
        }
        let months = (params.end_date - params.start_date) / MONTH_IN_SECONDS;
        let months_plus = (months + 1) as i128;
        let monthly_fee = storage::get_monthly_fee(self);
        if months_plus.checked_mul(monthly_fee).is_none() {
            return true;
        }
        storage::get_latest_lockup_id(self) == u64::MAX
    }

    /// Whether cancelling lockup `id` at `now` would make the contract panic:
    /// when there is no such lockup, or when the cancellation overflows.
    pub fn cancel_panics(&self, id: u64, now: u64) -> (panics: bool)
        ensures
            panics == !({
                &&& self@.lockups.contains_key(id)
                &&& cancel_refusal(self@.lockups[id], now) is None ==> {
                    &&& split_computable(self@.lockups[id], now)
                    &&& fits_i128(cancel_receiver_part(self@.lockups[id], now))
                }
            }),
    {
        let lockup = match storage::get_lockup_by_id(self, &id) {
            Ok(lockup) => lockup,
            Err(_) => return true,
        };
        if lockup.is_cancelled || lockup.end_date <= now || lockup.cancellable_date > now {
            return false;
        }
        if split_overflows(&lockup, now) {
            return true;
        }
        unwithdrawn_overflows(&lockup, now)
    }

    /// Whether withdrawing `amount` from lockup `id` at `now` would make the
    /// contract panic: when there is no such lockup, or when the withdrawal overflows.
    pub fn withdraw_panics(&self, id: u64, now: u64, amount: i128) -> (panics: bool)
        ensures
            panics == !({
                &&& self@.lockups.contains_key(id)
                &&& withdraw_reaches_split(self@.lockups[id], now, amount) ==> {
                    &&& split_computable(self@.lockups[id], now)
                    &&& fits_i128(released(self@.lockups[id], now) - self@.lockups[id].withdrawn)
                }
            }),
    {
        let lockup = match storage::get_lockup_by_id(self, &id) {
            Ok(lockup) => lockup,
            Err(_) => return true,
        };
        if amount < 0 || lockup.is_cancelled || now <= lockup.start_date || now <= lockup.cliff_date {
            return false;
        }
        if split_overflows(&lockup, now) {
            return true;
        }
        unwithdrawn_overflows(&lockup, now)
    }

    /// Whether topping up lockup `id` at `now` by `adding_amount` would make
    /// the contract panic: when there is no such lockup, when its amount is
    /// zero, when the additional time is negative or too large, or when a
    /// date or the amount overflows.
    pub fn topup_panics(&self, id: u64, now: u64, adding_amount: i128) -> (panics: bool)
        ensures
            panics == !({
                &&& self@.lockups.contains_key(id)
                &&& topup_refusal(self@.lockups[id], now) is None ==> topup_computable(
                    self@.lockups[id],
                    adding_amount,
                )
            }),
    {
        let lockup = match storage::get_lockup_by_id(self, &id) {
            Ok(lockup) => lockup,
            Err(_) => return true,
        };
        if lockup.is_cancelled || lockup.end_date < now {
            return false;
        }
        if lockup.start_date > lockup.end_date || lockup.amount == 0 {
            return true;
        }
        let duration = (lockup.end_date - lockup.start_date) as i128;
        let product = match adding_amount.checked_mul(duration) {
            Some(p) => p,
            None => return true,
        };
        if product == i128::MIN && lockup.amount == -1 {
            proof {
                assert(crate::utils::abs(product as int) / 1 == crate::utils::abs(product as int));
            }
            return true;
        }
        let extra = crate::utils::div_toward_zero(product, lockup.amount);
        if extra < 0 || extra > u64::MAX as i128 {
            return true;
        }
        assert(additional_time_computable(lockup, adding_amount as int));
        let extra = extra as u64;
        if lockup.cancellable_date == lockup.end_date && lockup.cancellable_date.checked_add(extra).is_none() {
            return true;
        }
        if lockup.cliff_date == lockup.end_date && lockup.cliff_date.checked_add(extra).is_none() {
            return true;
        }
        if lockup.amount.checked_add(adding_amount).is_none() {
            return true;
        }
        lockup.end_date.checked_add(extra).is_none()
    }
}

} // verus!
