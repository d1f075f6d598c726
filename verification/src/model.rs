use vstd::prelude::*;

use crate::data_key::DataKey;
use crate::effects::{Effect, EventKind};
use crate::errors::CustomErrors;
use crate::types::{lockup_of_input, Lockup, LockupInput};
use crate::utils::{
    additional_time, additional_time_computable, fits_i128, stream_fits, stream_receiver,
    vesting_fits, vesting_receiver,
};

verus! {

/// A lockup as every operation of the contract leaves it: a positive amount,
/// a start before the end, a cliff and a cancellable date within the schedule,
/// and a withdrawn part between zero and the amount.
pub open spec fn lockup_valid(l: Lockup) -> bool {
    &&& l.amount > 0
    &&& l.start_date < l.end_date
    &&& l.start_date <= l.cliff_date <= l.end_date
    &&& l.cancellable_date <= l.end_date
    &&& 0 <= l.withdrawn <= l.amount
}

/// What the receiver of `l` has earned at `now`, by its schedule.
pub open spec fn released(l: Lockup, now: u64) -> int {
    if l.is_vesting {
        vesting_receiver(l.start_date, l.end_date, l.cliff_date, now, l.rate.seconds(), l.amount as int)
    } else {
        stream_receiver(l.start_date, l.end_date, l.cliff_date, now, l.amount as int)
    }
}

/// Whether the split of `l` at `now` can be computed without overflow (the
/// linear split is computed for every lockup, the vesting one in addition
/// for vesting lockups).
pub open spec fn split_computable(l: Lockup, now: u64) -> bool {
    &&& stream_fits(l.start_date, l.end_date, l.cliff_date, now, l.amount as int)
    &&& l.is_vesting ==> vesting_fits(
        l.start_date,
        l.end_date,
        l.cliff_date,
        now,
        l.rate.seconds(),
        l.amount as int,
    )
}

// ---------------------------------------------------------------- creating

/// Why the contract refuses to create a lockup from `params`, if it does.
pub open spec fn create_refusal(params: LockupInput) -> Option<CustomErrors> {
    if params.amount <= 0 {
        Some(CustomErrors::InvalidAmount)
    } else if params.sender@ == params.receiver@ {
        Some(CustomErrors::InvalidReceiver)
    } else if params.start_date >= params.end_date {
        Some(CustomErrors::InvalidStartDate)
    } else if params.cancellable_date > params.end_date {
        Some(CustomErrors::InvalidCancellableDate)
    } else if params.cliff_date < params.start_date || params.cliff_date > params.end_date {
        Some(CustomErrors::InvalidCliffDate)
    } else {
        None
    }
}

/// The lockup created from `params`, as a stream or as a vesting schedule.
pub open spec fn created_lockup(params: LockupInput, is_vesting: bool) -> Lockup {
    Lockup { is_vesting: is_vesting, ..lockup_of_input(params) }
}

// --------------------------------------------------------------- cancelling

/// Why the contract refuses to cancel `l` at `now`, if it does.
pub open spec fn cancel_refusal(l: Lockup, now: u64) -> Option<CustomErrors> {
    if l.is_cancelled {
        Some(CustomErrors::LockupAlreadyCanceled)
    } else if l.end_date <= now {
        Some(CustomErrors::LockupAlreadySettled)
    } else if l.cancellable_date > now {
        Some(CustomErrors::LockupNotCancellableYet)
    } else {
        None
    }
}

/// `l` after a cancellation at `now`: everything earned counts as withdrawn.
pub open spec fn cancelled_lockup(l: Lockup, now: u64) -> Lockup {
    Lockup {
        is_cancelled: true,
        cancelled_date: now,
        withdrawn: released(l, now) as i128,
        ..l
    }
}

/// What a cancellation pays the receiver: what it earned and did not withdraw yet.
pub open spec fn cancel_receiver_part(l: Lockup, now: u64) -> int {
    released(l, now) - l.withdrawn
}

/// What a cancellation pays back to the sender: what the receiver has not earned.
pub open spec fn cancel_sender_part(l: Lockup, now: u64) -> int {
    l.amount - released(l, now)
}

/// The payments of a cancellation: first to the receiver, then to the sender,
/// each only when positive.
pub open spec fn cancel_payouts(l: Lockup, now: u64) -> Seq<Effect> {
    let to_receiver = cancel_receiver_part(l, now);
    let to_sender = cancel_sender_part(l, now);
    (if to_receiver > 0 {
        seq![Effect::Transfer { token: l.token, to: l.receiver, amount: to_receiver as i128 }]
    } else {
        seq![]
    }) + (if to_sender > 0 {
        seq![Effect::Transfer { token: l.token, to: l.sender, amount: to_sender as i128 }]
    } else {
        seq![]
    })
}

// -------------------------------------------------------------- withdrawing

/// Why the contract refuses to withdraw `amount` from `l` at `now`, if it does.
pub open spec fn withdraw_refusal(l: Lockup, now: u64, amount: i128) -> Option<CustomErrors> {
    if amount < 0 {
        Some(CustomErrors::AmountUnderflows)
    } else if l.is_cancelled {
        Some(CustomErrors::LockupIsCanceled)
    } else if now <= l.start_date {
        Some(CustomErrors::LockupNotStartedYet)
    } else if now <= l.cliff_date {
        None
    } else if released(l, now) - l.withdrawn < amount {
        Some(CustomErrors::SpecifiedAmountIsGreaterThanWithdrawable)
    } else {
        None
    }
}

/// Whether a withdrawal of `amount` from `l` at `now` gets as far as computing
/// the split.
pub open spec fn withdraw_reaches_split(l: Lockup, now: u64, amount: i128) -> bool {
    amount >= 0 && !l.is_cancelled && now > l.start_date && now > l.cliff_date
}

/// What a withdrawal pays out: nothing before the cliff, everything earned and
/// not yet withdrawn when `amount` is zero, else `amount`.
pub open spec fn withdraw_payout(l: Lockup, now: u64, amount: i128) -> int {
    if now <= l.cliff_date {
        0
    } else if amount == 0 {
        released(l, now) - l.withdrawn
    } else {
        amount as int
    }
}

/// The effects of a withdrawal from lockup `id` that gets past the cliff: the
/// write, the payment to the receiver and the event.
pub open spec fn withdraw_effects(l: Lockup, id: u64, now: u64, amount: i128) -> Seq<Effect> {
    seq![
        Effect::Save { key: DataKey::Lockup(id) },
        Effect::Transfer {
            token: l.token,
            to: l.receiver,
            amount: withdraw_payout(l, now, amount) as i128,
        },
        Effect::Publish { kind: EventKind::Withdrawn, id },
    ]
}

/// `l` after a withdrawal of `amount` at `now`.
pub open spec fn withdrawn_lockup(l: Lockup, now: u64, amount: i128) -> Lockup {
    Lockup { withdrawn: (l.withdrawn + withdraw_payout(l, now, amount)) as i128, ..l }
}

// ------------------------------------------------------------------ topping up

/// Why the contract refuses to top up `l` at `now`, if it does.
pub open spec fn topup_refusal(l: Lockup, now: u64) -> Option<CustomErrors> {
    if l.is_cancelled {
        Some(CustomErrors::LockupIsCanceled)
    } else if l.end_date < now {
        Some(CustomErrors::LockupAlreadySettled)
    } else {
        None
    }
}

/// Whether topping up `l` by `adding_amount` computes without overflow.
pub open spec fn topup_computable(l: Lockup, adding_amount: i128) -> bool {
    let extra = additional_time(l, adding_amount as int);
    &&& additional_time_computable(l, adding_amount as int)
    &&& l.cancellable_date == l.end_date ==> l.cancellable_date + extra <= u64::MAX
    &&& l.cliff_date == l.end_date ==> l.cliff_date + extra <= u64::MAX
    &&& fits_i128(l.amount + adding_amount)
    &&& l.end_date + extra <= u64::MAX
}

/// `l` after a top-up of `adding_amount`: the amount grows, the end moves out
/// by the additional time, and so do a cliff and a cancellable date that sat
/// at the end.
pub open spec fn topped_up_lockup(l: Lockup, adding_amount: i128) -> Lockup {
    let extra = additional_time(l, adding_amount as int);
    Lockup {
        cancellable_date: if l.cancellable_date == l.end_date {
            (l.cancellable_date + extra) as u64
        } else {
            l.cancellable_date
        },
        cliff_date: if l.cliff_date == l.end_date {
            (l.cliff_date + extra) as u64
        } else {
            l.cliff_date
        },
        amount: (l.amount + adding_amount) as i128,
        end_date: (l.end_date + extra) as u64,
        ..l
    }
}

} // verus!
