use std::collections::HashMap;

use vstd::prelude::*;

use crate::data_key::DataKey;
use crate::effects::{Effect, EventKind, Recipient};
use crate::errors::CustomErrors;
use crate::model::{
    cancel_payouts, cancel_receiver_part, cancel_refusal, cancel_sender_part, cancelled_lockup,
    create_refusal, created_lockup, lockup_valid, released, split_computable, topped_up_lockup,
    topup_computable, topup_refusal, withdraw_effects, withdraw_payout, withdraw_reaches_split,
    withdraw_refusal, withdrawn_lockup,
};
use crate::storage;
use crate::token::{fee_effects, take_xlm_fee, transfer, transfer_from};
use crate::types::{Address, Lockup, LockupInput};
use crate::utils::{
    calculate_additional_time, calculate_lockup_fee, calculate_stream_amounts,
    calculate_vesting_amounts, fits_i128, lockup_fee,
};
use crate::laws::lemma_released_within;

verus! {

broadcast use vstd::std_specs::hash::group_hash_axioms;

/// The state of the contract: what it keeps under each of its keys.
pub struct Fluxity {
    pub admin: Option<Address>,
    pub xlm: Option<Address>,
    pub monthly_fee: Option<i128>,
    pub latest_lockup_id: Option<u64>,
    pub lockups: HashMap<u64, Lockup>,
}

/// The state of the contract as a mathematical value.
pub struct FluxityView {
    pub admin: Option<Address>,
    pub xlm: Option<Address>,
    pub monthly_fee: Option<i128>,
    pub latest_lockup_id: Option<u64>,
    pub lockups: Map<u64, Lockup>,
}

impl View for Fluxity {
    type V = FluxityView;

    open spec fn view(&self) -> FluxityView {
        FluxityView {
            admin: self.admin,
            xlm: self.xlm,
            monthly_fee: self.monthly_fee,
            latest_lockup_id: self.latest_lockup_id,
            lockups: self.lockups@,
        }
    }
}

impl FluxityView {
    /// The id the next lockup gets.
    pub open spec fn latest_id(self) -> u64 {
        match self.latest_lockup_id {
            Some(id) => id,
            None => 0,
        }
    }

    /// The monthly fee, zero until set.
    pub open spec fn fee(self) -> i128 {
        match self.monthly_fee {
            Some(fee) => fee,
            None => 0,
        }
    }

    /// Every stored lockup has an id below the next one and is valid.
    pub open spec fn wf(self) -> bool {
        forall|id: u64| #[trigger]
            self.lockups.contains_key(id) ==> id < self.latest_id() && lockup_valid(
                self.lockups[id],
            )
    }

    /// Whether creating a lockup from `params` gets past the checks and
    /// computes without overflow.
    pub open spec fn create_computable(self, params: LockupInput) -> bool {
        create_refusal(params) is None ==> {
            &&& self.admin is Some
            &&& self.xlm is Some
            &&& fits_i128(lockup_fee(params.start_date, params.end_date, self.fee() as int))
            &&& self.latest_id() < u64::MAX
        }
    }

    /// The state after a lockup was created from `params`.
    pub open spec fn after_create(self, params: LockupInput, is_vesting: bool) -> FluxityView {
        FluxityView {
            lockups: self.lockups.insert(self.latest_id(), created_lockup(params, is_vesting)),
            latest_lockup_id: Some((self.latest_id() + 1) as u64),
            ..self
        }
    }

    /// The effects of creating a lockup from `params`: the sender's
    /// authorization, the fee, the deposit, the two writes and the event.
    pub open spec fn create_effects(self, params: LockupInput) -> Seq<Effect> {
        seq![Effect::RequireAuth { address: params.sender }] + fee_effects(
            self.xlm->0,
            params.sender,
            self.admin->0,
            params.start_date,
            params.end_date,
            self.fee() as int,
        ) + seq![
            Effect::TransferFrom {
                token: params.token,
                from: params.sender,
                recipient: Recipient::Contract,
                amount: params.amount,
            },
            Effect::Save { key: DataKey::Lockup(self.latest_id()) },
            Effect::Save { key: DataKey::LatestLockupId },
            Effect::Publish { kind: EventKind::Created, id: self.latest_id() },
        ]
    }
}

impl Fluxity {
    /// A freshly deployed contract: nothing stored.
    pub fn new() -> (state: Fluxity)
        ensures
            state@ == (FluxityView {
                admin: None,
                xlm: None,
                monthly_fee: None,
                latest_lockup_id: None,
                lockups: Map::empty(),
            }),
            state@.wf(),
    {
        Fluxity {
            admin: None,
            xlm: None,
            monthly_fee: None,
            latest_lockup_id: None,
            lockups: HashMap::new(),
        }
    }

    /// Initializes the contract and sets its admin and the token fees are paid in.
    pub fn initialize(&mut self, admin: Address, xlm: Address, effects: &mut Vec<Effect>)
        ensures
            final(self)@ == (FluxityView { admin: Some(admin), xlm: Some(xlm), ..old(self)@ }),
            final(effects)@ == old(effects)@ + seq![
                Effect::Save { key: DataKey::Admin },
                Effect::Save { key: DataKey::Xlm },
            ],
            old(self)@.wf() ==> final(self)@.wf(),
    {
        storage::set_admin(self, admin, effects);
        storage::set_xlm(self, xlm, effects);
    }

    /// The admin of the contract.
    pub fn get_admin(&self) -> (admin: Address)
        requires
            self.admin is Some,
        ensures
            admin == self.admin->0,
    {
        storage::get_admin(self)
    }

    /// The token lockup fees are paid in.
    pub fn get_xlm(&self) -> (xlm: Address)
        requires
            self.xlm is Some,
        ensures
            xlm == self.xlm->0,
    {
        storage::get_xlm(self)
    }

    /// Sets the monthly fee for lockups. Only the admin can do this.
    pub fn set_monthly_fee(&mut self, fee: i128, effects: &mut Vec<Effect>)
        requires
            old(self).admin is Some,
        ensures
            final(self)@ == (FluxityView { monthly_fee: Some(fee), ..old(self)@ }),
            final(effects)@ == old(effects)@ + seq![
                Effect::RequireAuth { address: old(self).admin->0 },
                Effect::Save { key: DataKey::MonthlyFee },
            ],
            old(self)@.wf() ==> final(self)@.wf(),
    {
        let admin = storage::get_admin(self);
        effects.push(Effect::RequireAuth { address: admin });
        storage::set_monthly_fee(self, fee, effects);
    }

    /// The monthly fee for lockups.
    pub fn get_monthly_fee(&self) -> (fee: i128)
        ensures
            fee == self@.fee(),
    {
        storage::get_monthly_fee(self)
    }

    /// The id the next lockup gets.
    pub fn get_latest_lockup_id(&self) -> (id: u64)
        ensures
            id == self@.latest_id(),
    {
        storage::get_latest_lockup_id(self)
    }

    /// The fee a lockup from `start_date` to `end_date` costs at the current monthly fee.
    pub fn calculate_fee(&self, start_date: u64, end_date: u64) -> (fee: i128)
        requires
            start_date <= end_date,
            fits_i128(lockup_fee(start_date, end_date, self@.fee() as int)),
        ensures
            fee == lockup_fee(start_date, end_date, self@.fee() as int),
    {
        let monthly_fee = storage::get_monthly_fee(self);
        calculate_lockup_fee(start_date, end_date, monthly_fee)
    }

    /// The lockup stored under `id`.
    pub fn get_lockup(&self, id: u64) -> (r: Result<Lockup, CustomErrors>)
        ensures
            match r {
                Ok(lockup) => self@.lockups.contains_key(id) && lockup == self@.lockups[id],
                Err(e) => !self@.lockups.contains_key(id) && e == CustomErrors::LockupNotFound,
            },
    {
        storage::get_lockup_by_id(self, &id)
    }

    /// Requires the sender's authorization, checks `params`, charges the fee,
    /// takes the deposit and stores the new lockup under the next id.
    fn create_lockup(&mut self, params: LockupInput, is_vesting: bool, effects: &mut Vec<Effect>) -> (r: Result<u64, CustomErrors>)
        requires
            old(self)@.create_computable(params),
        ensures
            match create_refusal(params) {
                Some(e) => {
                    &&& r == Err::<u64, CustomErrors>(e)
                    &&& final(self)@ == old(self)@
                    &&& final(effects)@ == old(effects)@.push(
                        Effect::RequireAuth { address: params.sender },
                    )
                },
                None => {
                    &&& r == Ok::<u64, CustomErrors>(old(self)@.latest_id())
                    &&& final(self)@ == old(self)@.after_create(params, is_vesting)
                    &&& final(effects)@ == old(effects)@ + old(self)@.create_effects(params)
                },
            },
    {
        effects.push(Effect::RequireAuth { address: params.sender });
        if params.amount <= 0 {
            return Err(CustomErrors::InvalidAmount);
        }
        if params.sender == params.receiver {
            return Err(CustomErrors::InvalidReceiver);
        }
        if params.start_date >= params.end_date {
            return Err(CustomErrors::InvalidStartDate);
        }
        if params.cancellable_date > params.end_date {
            return Err(CustomErrors::InvalidCancellableDate);
        }
        if params.cliff_date < params.start_date || params.cliff_date > params.end_date {
            return Err(CustomErrors::InvalidCliffDate);
        }
        let admin = storage::get_admin(self);
        take_xlm_fee(self, params.start_date, params.end_date, params.sender, admin, effects);
        transfer_from(&params.token, &params.sender, &params.amount, effects);
        let id = storage::get_latest_lockup_id(self);
        let mut lockup: Lockup = params.into();
        lockup.is_vesting = is_vesting;
        storage::set_lockup(self, id, &lockup, effects);
        storage::increment_latest_lockup_id(self, &id, effects);
        effects.push(Effect::Publish { kind: EventKind::Created, id });
        assert(effects@ =~= old(effects)@ + old(self)@.create_effects(params));
        Ok(id)
    }

    /// Creates a linear stream from `params`.
    pub fn create_stream(&mut self, params: LockupInput, effects: &mut Vec<Effect>) -> (r: Result<u64, CustomErrors>)
        requires
            old(self)@.create_computable(params),
        ensures
            match create_refusal(params) {
                Some(e) => {
                    &&& r == Err::<u64, CustomErrors>(e)
                    &&& final(self)@ == old(self)@
                    &&& final(effects)@ == old(effects)@.push(
                        Effect::RequireAuth { address: params.sender },
                    )
                },
                None => {
                    &&& r == Ok::<u64, CustomErrors>(old(self)@.latest_id())
                    &&& final(self)@ == old(self)@.after_create(params, false)
                    &&& final(effects)@ == old(effects)@ + old(self)@.create_effects(params)
                },
            },
            old(self)@.wf() ==> final(self)@.wf(),
            old(self)@.wf() && r is Ok ==> !old(self)@.lockups.contains_key(r->Ok_0),
    {
        let r = self.create_lockup(params, false, effects);
        proof {
            if old(self)@.wf() && create_refusal(params) is None {
                lemma_create_keeps_wf(old(self)@, params, false);
            }
        }
        r
    }

    /// Creates a vesting schedule from `params`.
    pub fn create_vesting(&mut self, params: LockupInput, effects: &mut Vec<Effect>) -> (r: Result<u64, CustomErrors>)
        requires
            old(self)@.create_computable(params),
        ensures
            match create_refusal(params) {
                Some(e) => {
                    &&& r == Err::<u64, CustomErrors>(e)
                    &&& final(self)@ == old(self)@
                    &&& final(effects)@ == old(effects)@.push(
                        Effect::RequireAuth { address: params.sender },
                    )
                },
                None => {
                    &&& r == Ok::<u64, CustomErrors>(old(self)@.latest_id())
                    &&& final(self)@ == old(self)@.after_create(params, true)
                    &&& final(effects)@ == old(effects)@ + old(self)@.create_effects(params)
                },
            },
            old(self)@.wf() ==> final(self)@.wf(),
            old(self)@.wf() && r is Ok ==> !old(self)@.lockups.contains_key(r->Ok_0),
    {
        let r = self.create_lockup(params, true, effects);
        proof {
            if old(self)@.wf() && create_refusal(params) is None {
                lemma_create_keeps_wf(old(self)@, params, true);
            }
        }
        r
    }
}


impl Fluxity {
    /// The split of `lockup` at `now`: the linear one, or the vesting one for a
    /// vesting lockup.
    pub(crate) fn lockup_amounts(lockup: &Lockup, now: u64) -> (amounts: crate::types::Amounts)
        requires
            split_computable(*lockup, now),
        ensures
            amounts.receiver_amount == released(*lockup, now),
            amounts.sender_amount + amounts.receiver_amount == lockup.amount,
    {
        let mut amounts = calculate_stream_amounts(
            lockup.start_date,
            lockup.end_date,
            lockup.cliff_date,
            now,
            lockup.amount,
        );
        if lockup.is_vesting {
            amounts =
                calculate_vesting_amounts(
                lockup.start_date,
                lockup.end_date,
                lockup.cliff_date,
                now,
                lockup.rate,
                lockup.amount,
            );
        }
        amounts
    }

    /// Cancels lockup `id` at `now`: the receiver gets what it earned and did
    /// not withdraw yet, the sender gets back the rest. Only the sender can do this.
    pub fn cancel_lockup(&mut self, id: u64, now: u64, effects: &mut Vec<Effect>) -> (r: Result<(i128, i128), CustomErrors>)
        requires
            old(self)@.lockups.contains_key(id),
            cancel_refusal(old(self)@.lockups[id], now) is None ==> {
                &&& split_computable(old(self)@.lockups[id], now)
                &&& fits_i128(cancel_receiver_part(old(self)@.lockups[id], now))
            },
        ensures
            ({
                let l = old(self)@.lockups[id];
                match cancel_refusal(l, now) {
                    Some(e) => {
                        &&& r == Err::<(i128, i128), CustomErrors>(e)
                        &&& final(self)@ == old(self)@
                        &&& final(effects)@ == old(effects)@.push(
                            Effect::RequireAuth { address: l.sender },
                        )
                    },
                    None => {
                        &&& r == Ok::<(i128, i128), CustomErrors>(
                            (
                                cancel_sender_part(l, now) as i128,
                                cancel_receiver_part(l, now) as i128,
                            ),
                        )
                        &&& final(self)@ == (FluxityView {
                            lockups: old(self)@.lockups.insert(id, cancelled_lockup(l, now)),
                            ..old(self)@
                        })
                        &&& final(effects)@ == old(effects)@ + seq![
                            Effect::RequireAuth { address: l.sender },
                            Effect::Save { key: DataKey::Lockup(id) },
                        ] + cancel_payouts(l, now) + seq![
                            Effect::Publish { kind: EventKind::Cancelled, id },
                        ]
                    },
                }
            }),
            old(self)@.wf() ==> final(self)@.wf(),
    {
        let mut lockup = match storage::get_lockup_by_id(self, &id) {
            Ok(lockup) => lockup,
            Err(e) => return Err(e),
        };
        let ghost l = lockup;
        effects.push(Effect::RequireAuth { address: lockup.sender });
        if lockup.is_cancelled {
            return Err(CustomErrors::LockupAlreadyCanceled);
        }
        let current_date = now;
        if lockup.end_date <= current_date {
            return Err(CustomErrors::LockupAlreadySettled);
        }
        if lockup.cancellable_date > current_date {
            return Err(CustomErrors::LockupNotCancellableYet);
        }
        let amounts = Self::lockup_amounts(&lockup, current_date);
        let sender_amount = amounts.sender_amount;
        let receiver_amount = amounts.receiver_amount - lockup.withdrawn;
        lockup.is_cancelled = true;
        lockup.cancelled_date = current_date;
        lockup.withdrawn = amounts.receiver_amount;
        storage::set_lockup(self, id, &lockup, effects);
        let ghost after_save = effects@;
        if receiver_amount > 0 {
            transfer(&lockup.token, &lockup.receiver, &receiver_amount, effects);
        }
        if sender_amount > 0 {
            transfer(&lockup.token, &lockup.sender, &sender_amount, effects);
        }
        assert(effects@ =~= after_save + cancel_payouts(l, now));
        effects.push(Effect::Publish { kind: EventKind::Cancelled, id });
        assert(effects@ =~= old(effects)@ + seq![
            Effect::RequireAuth { address: l.sender },
            Effect::Save { key: DataKey::Lockup(id) },
        ] + cancel_payouts(l, now) + seq![Effect::Publish { kind: EventKind::Cancelled, id }]);
        proof {
            if old(self)@.wf() {
                lemma_released_within(l, now);
                lemma_update_keeps_wf(old(self)@, id, cancelled_lockup(l, now));
            }
        }
        Ok((sender_amount, receiver_amount))
    }

    /// Withdraws `amount` from lockup `id` at `now` to its receiver; zero
    /// withdraws everything earned and not withdrawn yet. Anyone can call this.
    pub fn withdraw_lockup(&mut self, id: u64, now: u64, amount: i128, effects: &mut Vec<Effect>) -> (r: Result<i128, CustomErrors>)
        requires
            old(self)@.lockups.contains_key(id),
            withdraw_reaches_split(old(self)@.lockups[id], now, amount) ==> {
                &&& split_computable(old(self)@.lockups[id], now)
                &&& fits_i128(released(old(self)@.lockups[id], now) - old(self)@.lockups[id].withdrawn)
            },
        ensures
            ({
                let l = old(self)@.lockups[id];
                match withdraw_refusal(l, now, amount) {
                    Some(e) => {
                        &&& r == Err::<i128, CustomErrors>(e)
                        &&& final(self)@ == old(self)@
                        &&& final(effects)@ == old(effects)@
                    },
                    None => {
                        &&& r == Ok::<i128, CustomErrors>(withdraw_payout(l, now, amount) as i128)
                        &&& now <= l.cliff_date ==> {
                            &&& final(self)@ == old(self)@
                            &&& final(effects)@ == old(effects)@
                        }
                        &&& now > l.cliff_date ==> {
                            &&& final(self)@ == (FluxityView {
                                lockups: old(self)@.lockups.insert(id, withdrawn_lockup(l, now, amount)),
                                ..old(self)@
                            })
                            &&& final(effects)@ == old(effects)@ + withdraw_effects(l, id, now, amount)
                        }
                    },
                }
            }),
            old(self)@.wf() ==> final(self)@.wf(),
    {
        let mut lockup = match storage::get_lockup_by_id(self, &id) {
            Ok(lockup) => lockup,
            Err(e) => return Err(e),
        };
        let ghost l = lockup;
        if amount < 0 {
            return Err(CustomErrors::AmountUnderflows);
        }
        if lockup.is_cancelled {
            return Err(CustomErrors::LockupIsCanceled);
        }
        let current_date = now;
        if current_date <= lockup.start_date {
            return Err(CustomErrors::LockupNotStartedYet);
        }
        if current_date <= lockup.cliff_date {
            return Ok(0);
        }
        let amounts = Self::lockup_amounts(&lockup, current_date);
        let withdrawable = amounts.receiver_amount - lockup.withdrawn;
        if withdrawable < amount {
            return Err(CustomErrors::SpecifiedAmountIsGreaterThanWithdrawable);
        }
        let mut amount_to_transfer = amount;
        if amount == 0 {
            amount_to_transfer = withdrawable;
        }
        lockup.withdrawn = lockup.withdrawn + amount_to_transfer;
        storage::set_lockup(self, id, &lockup, effects);
        transfer(&lockup.token, &lockup.receiver, &amount_to_transfer, effects);
        effects.push(Effect::Publish { kind: EventKind::Withdrawn, id });
        assert(effects@ =~= old(effects)@ + withdraw_effects(l, id, now, amount));
        proof {
            if old(self)@.wf() {
                lemma_released_within(l, now);
                lemma_update_keeps_wf(old(self)@, id, withdrawn_lockup(l, now, amount));
            }
        }
        Ok(amount_to_transfer)
    }

    /// Adds `adding_amount` to lockup `id` and stretches its schedule so that
    /// it keeps releasing at the same pace. Only the sender can do this.
    pub fn topup_lockup(&mut self, id: u64, now: u64, adding_amount: i128, effects: &mut Vec<Effect>) -> (r: Result<i128, CustomErrors>)
        requires
            old(self)@.lockups.contains_key(id),
            topup_refusal(old(self)@.lockups[id], now) is None ==> topup_computable(
                old(self)@.lockups[id],
                adding_amount,
            ),
        ensures
            ({
                let l = old(self)@.lockups[id];
                match topup_refusal(l, now) {
                    Some(e) => {
                        &&& r == Err::<i128, CustomErrors>(e)
                        &&& final(self)@ == old(self)@
                        &&& final(effects)@ == old(effects)@.push(
                            Effect::RequireAuth { address: l.sender },
                        )
                    },
                    None => {
                        &&& r == Ok::<i128, CustomErrors>(topped_up_lockup(l, adding_amount).amount)
                        &&& final(self)@ == (FluxityView {
                            lockups: old(self)@.lockups.insert(id, topped_up_lockup(l, adding_amount)),
                            ..old(self)@
                        })
                        &&& final(effects)@ == old(effects)@ + seq![
                            Effect::RequireAuth { address: l.sender },
                            Effect::Save { key: DataKey::Lockup(id) },
                            Effect::Publish { kind: EventKind::Topup, id },
                        ]
                    },
                }
            }),
            old(self)@.wf() && adding_amount >= 0 ==> final(self)@.wf(),
    {
        let mut lockup = match storage::get_lockup_by_id(self, &id) {
            Ok(lockup) => lockup,
            Err(e) => return Err(e),
        };
        let ghost l = lockup;
        effects.push(Effect::RequireAuth { address: lockup.sender });
        if lockup.is_cancelled {
            return Err(CustomErrors::LockupIsCanceled);
        }
        let current_date = now;
        if lockup.end_date < current_date {
            return Err(CustomErrors::LockupAlreadySettled);
        }
        let additional_duration = calculate_additional_time(&lockup, adding_amount);
        if lockup.cancellable_date == lockup.end_date {
            lockup.cancellable_date = lockup.cancellable_date + additional_duration;
        }
        if lockup.cliff_date == lockup.end_date {
            lockup.cliff_date = lockup.cliff_date + additional_duration;
        }
        lockup.amount = lockup.amount + adding_amount;
        lockup.end_date = lockup.end_date + additional_duration;
        storage::set_lockup(self, id, &lockup, effects);
        effects.push(Effect::Publish { kind: EventKind::Topup, id });
        assert(effects@ =~= old(effects)@ + seq![
            Effect::RequireAuth { address: l.sender },
            Effect::Save { key: DataKey::Lockup(id) },
            Effect::Publish { kind: EventKind::Topup, id },
        ]);
        proof {
            if old(self)@.wf() && adding_amount >= 0 {
                lemma_update_keeps_wf(old(self)@, id, topped_up_lockup(l, adding_amount));
            }
        }
        Ok(lockup.amount)
    }
}

/// Replacing a stored lockup by a valid one keeps the state well formed.
proof fn lemma_update_keeps_wf(v: FluxityView, id: u64, l: Lockup)
    requires
        v.wf(),
        v.lockups.contains_key(id),
        lockup_valid(l),
    ensures
        (FluxityView { lockups: v.lockups.insert(id, l), ..v }).wf(),
{
    let w = FluxityView { lockups: v.lockups.insert(id, l), ..v };
    assert forall|k: u64| #[trigger] w.lockups.contains_key(k) implies k < w.latest_id()
        && lockup_valid(w.lockups[k]) by {
        assert(v.lockups.contains_key(k));
    }
}

proof fn lemma_create_keeps_wf(v: FluxityView, params: LockupInput, is_vesting: bool)
    requires
        v.wf(),
        create_refusal(params) is None,
        v.latest_id() < u64::MAX,
    ensures
        v.after_create(params, is_vesting).wf(),
        !v.lockups.contains_key(v.latest_id()),
{
    let w = v.after_create(params, is_vesting);
    assert forall|id: u64| #[trigger] w.lockups.contains_key(id) implies id < w.latest_id()
        && lockup_valid(w.lockups[id]) by {
        if id != v.latest_id() {
            assert(v.lockups.contains_key(id));
        }
    }
}

} // verus!
