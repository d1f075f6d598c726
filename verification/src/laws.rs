use vstd::prelude::*;

use crate::contract::FluxityView;
use crate::errors::CustomErrors;
use crate::model::{
    cancel_receiver_part, cancel_refusal, cancel_sender_part, cancelled_lockup, create_refusal,
    created_lockup, lockup_valid, released, topped_up_lockup, topup_computable, topup_refusal,
    withdraw_effects, withdraw_payout, withdraw_refusal, withdrawn_lockup, cancel_payouts,
};
use crate::data_key::DataKey;
use crate::effects::{Effect, EventKind, Recipient};
use crate::types::{Address, Lockup, LockupInput, Rate};
use crate::utils::{
    additional_time, fits_i128, lemma_share_within, lemma_vesting_within, lockup_fee,
    stream_receiver, tdiv, vesting_receiver,
};

verus! {

/// A valid lockup releases between nothing and its whole amount, at any time.
pub proof fn lemma_released_within(l: Lockup, now: u64)
    requires
        lockup_valid(l),
    ensures
        0 <= released(l, now) <= l.amount,
{
    if now > l.start_date && now > l.cliff_date && now < l.end_date {
        if l.is_vesting {
            lemma_vesting_within(
                l.amount as int,
                now - l.start_date,
                l.rate.seconds(),
                l.end_date - l.start_date,
            );
        } else {
            lemma_share_within(l.amount as int, now - l.start_date, l.end_date - l.start_date);
        }
    }
}

/// What a valid lockup has released never shrinks as time goes on.
pub proof fn lemma_released_monotone(l: Lockup, earlier: u64, later: u64)
    requires
        lockup_valid(l),
        earlier <= later,
    ensures
        released(l, earlier) <= released(l, later),
{
    lemma_released_within(l, earlier);
    lemma_released_within(l, later);
    let s = l.start_date;
    let e = l.end_date;
    if earlier > s && earlier > l.cliff_date && later < e {
        let whole = e - s;
        let a = l.amount as int;
        if l.is_vesting {
            let period = l.rate.seconds();
            let slice = tdiv(a * period, whole);
            assert(a * period >= 0) by (nonlinear_arith)
                requires
                    a > 0,
                    period > 0,
            ;
            assert(slice >= 0) by (nonlinear_arith)
                requires
                    a * period >= 0,
                    whole > 0,
                    slice == (a * period) / whole,
            ;
            let t1 = (earlier - s) / period;
            let t2 = (later - s) / period;
            vstd::arithmetic::div_mod::lemma_div_is_ordered(earlier - s, later - s, period);
            assert(t1 * slice <= t2 * slice) by (nonlinear_arith)
                requires
                    t1 <= t2,
                    slice >= 0,
            ;
        } else {
            assert(a * (earlier - s) <= a * (later - s)) by (nonlinear_arith)
                requires
                    a > 0,
                    earlier <= later,
            ;
            assert(a * (earlier - s) >= 0) by (nonlinear_arith)
                requires
                    a > 0,
                    earlier > s,
            ;
            vstd::arithmetic::div_mod::lemma_div_is_ordered(a * (earlier - s), a * (later - s), whole);
        }
    }
}

/// A cancellation settles the lockup's whole amount: what the receiver had
/// withdrawn, what the cancellation pays it and what it pays back to the
/// sender add up to the amount; afterwards the lockup counts everything the
/// receiver got as withdrawn.
pub proof fn lemma_cancel_settles(l: Lockup, now: u64)
    requires
        cancel_refusal(l, now) is None,
    ensures
        l.withdrawn + cancel_receiver_part(l, now) + cancel_sender_part(l, now) == l.amount,
        fits_i128(released(l, now)) ==> cancelled_lockup(l, now).withdrawn + cancel_sender_part(
            l,
            now,
        ) == l.amount,
{
}

/// With a non-negative amount and earlier withdrawals within what was
/// released, a cancellation pays each side a non-negative part, and the two
/// parts and the earlier withdrawals add up to exactly the amount; the lockup
/// then counts the earlier withdrawals and the receiver's part as withdrawn.
pub proof fn lemma_cancel_pays_exactly(l: Lockup, now: u64)
    requires
        l.amount >= 0,
        cancel_refusal(l, now) is None,
        0 <= l.withdrawn <= released(l, now),
    ensures
        cancel_receiver_part(l, now) >= 0,
        cancel_sender_part(l, now) >= 0,
        cancel_sender_part(l, now) + cancel_receiver_part(l, now) + l.withdrawn == l.amount,
        cancelled_lockup(l, now).withdrawn == l.withdrawn + cancel_receiver_part(l, now),
{
    lemma_released_bounded(l, now);
}

/// A cancelled lockup is final: it cannot be cancelled again, withdrawn
/// from, or topped up.
pub proof fn lemma_cancelled_is_final(l: Lockup, now: u64, later: u64, amount: i128)
    requires
        amount >= 0,
    ensures
        cancel_refusal(cancelled_lockup(l, now), later) == Some(CustomErrors::LockupAlreadyCanceled),
        withdraw_refusal(cancelled_lockup(l, now), later, amount) == Some(
            CustomErrors::LockupIsCanceled,
        ),
        topup_refusal(cancelled_lockup(l, now), later) == Some(CustomErrors::LockupIsCanceled),
{
}

/// A lockup whose cancellable date is its end date can never be cancelled.
pub proof fn lemma_cancellable_at_end_is_never_cancellable(l: Lockup, now: u64)
    requires
        l.cancellable_date == l.end_date,
    ensures
        cancel_refusal(l, now) is Some,
{
}

/// A lockup whose cancellable date is its start date can be cancelled at any
/// time from its start until its end, as long as it was not cancelled.
pub proof fn lemma_cancellable_from_start(l: Lockup, now: u64)
    requires
        l.cancellable_date == l.start_date,
        !l.is_cancelled,
        l.start_date <= now < l.end_date,
    ensures
        cancel_refusal(l, now) is None,
{
}

/// A withdrawal never takes the receiver past what it has earned: after it,
/// the withdrawn part is at most what the lockup released at that time.
pub proof fn lemma_withdraw_within_release(l: Lockup, now: u64, amount: i128)
    requires
        withdraw_refusal(l, now, amount) is None,
        now > l.cliff_date,
    ensures
        l.withdrawn + withdraw_payout(l, now, amount) <= released(l, now),
        amount > 0 ==> withdraw_payout(l, now, amount) == amount,
        amount == 0 ==> l.withdrawn + withdraw_payout(l, now, amount) == released(l, now),
{
}

/// Withdrawing zero takes everything earned, so a second such withdrawal at
/// the same time pays nothing.
pub proof fn lemma_withdraw_all_then_nothing(l: Lockup, now: u64)
    requires
        withdraw_refusal(l, now, 0) is None,
        fits_i128(released(l, now)),
    ensures
        withdraw_refusal(withdrawn_lockup(l, now, 0), now, 0) is None,
        withdraw_payout(withdrawn_lockup(l, now, 0), now, 0) == 0,
{
}

/// Creating a lockup stores it under the id it returns, leaves every other
/// lockup as it was, and a second creation gets the next id.
pub proof fn lemma_create_then_read(
    v: FluxityView,
    first: LockupInput,
    first_vesting: bool,
    second: LockupInput,
    second_vesting: bool,
    other: u64,
)
    requires
        v.latest_id() < u64::MAX - 1,
        other != v.latest_id(),
    ensures
        v.after_create(first, first_vesting).lockups.contains_key(v.latest_id()),
        v.after_create(first, first_vesting).lockups[v.latest_id()] == created_lockup(
            first,
            first_vesting,
        ),
        v.after_create(first, first_vesting).lockups.contains_key(other)
            == v.lockups.contains_key(other),
        v.lockups.contains_key(other) ==> v.after_create(first, first_vesting).lockups[other]
            == v.lockups[other],
        v.after_create(first, first_vesting).latest_id() == v.latest_id() + 1,
        v.after_create(first, first_vesting).after_create(second, second_vesting).lockups[(
        v.latest_id() + 1) as u64] == created_lockup(second, second_vesting),
        v.after_create(first, first_vesting).after_create(second, second_vesting).lockups[v.latest_id()]
            == created_lockup(first, first_vesting),
{
}

/// If `q * d <= x` then `q` is at most the quotient `x / d`.
proof fn lemma_below_quotient(q: int, x: int, d: int)
    requires
        d > 0,
        q * d <= x,
    ensures
        q <= x / d,
{
    vstd::arithmetic::div_mod::lemma_fundamental_div_mod(x, d);
    let k = x / d;
    let r = x % d;
    assert(x == d * k + r);
    assert(0 <= r < d);
    if q > k {
        assert(q * d >= (k + 1) * d) by (nonlinear_arith)
            requires
                q >= k + 1,
                d > 0,
        ;
        assert((k + 1) * d == d * k + d) by (nonlinear_arith);
        assert(false);
    }
}

/// Scaling by a ratio that is at least as large gives at least as much:
/// with `a * d2 <= a2 * d`, `(a * m) / d <= (a2 * m) / d2`.
proof fn lemma_scaled_no_less(a: int, a2: int, d: int, d2: int, m: int)
    requires
        a > 0,
        d > 0,
        d2 > 0,
        m >= 0,
        a * d2 <= a2 * d,
    ensures
        (a * m) / d <= (a2 * m) / d2,
{
    let q = (a * m) / d;
    vstd::arithmetic::div_mod::lemma_fundamental_div_mod(a * m, d);
    assert(a * m >= 0) by (nonlinear_arith)
        requires
            a > 0,
            m >= 0,
    ;
    vstd::arithmetic::div_mod::lemma_div_pos_is_pos(a * m, d);
    assert(q * d <= a * m) by (nonlinear_arith)
        requires
            a * m == d * q + (a * m) % d,
            0 <= (a * m) % d,
    ;
    assert(q * d2 * d <= a * m * d2) by (nonlinear_arith)
        requires
            q * d <= a * m,
            d2 > 0,
    ;
    assert(a * m * d2 <= a2 * m * d) by (nonlinear_arith)
        requires
            a * d2 <= a2 * d,
            m >= 0,
    ;
    assert(q * d2 <= a2 * m) by (nonlinear_arith)
        requires
            q * d2 * d <= a2 * m * d,
            d > 0,
    ;
    lemma_below_quotient(q, a2 * m, d2);
}

/// A top-up never takes away what the receiver had earned when it happens:
/// the stretched schedule releases at least as much at that moment. (A
/// vesting lockup topped up exactly at its end is left out: there the
/// stretched schedule counts whole periods again, and can release less.)
pub proof fn lemma_topup_keeps_earned(l: Lockup, now: u64, adding_amount: i128)
    requires
        lockup_valid(l),
        topup_refusal(l, now) is None,
        adding_amount >= 0,
        topup_computable(l, adding_amount),
        l.is_vesting ==> now < l.end_date,
    ensures
        released(l, now) <= released(topped_up_lockup(l, adding_amount), now),
{
    let t = topped_up_lockup(l, adding_amount);
    let a = l.amount as int;
    let a2 = t.amount as int;
    let d = l.end_date - l.start_date;
    let x = additional_time(l, adding_amount as int);
    let d2 = t.end_date - t.start_date;
    assert(adding_amount * d >= 0) by (nonlinear_arith)
        requires
            adding_amount >= 0,
            d > 0,
    ;
    assert(x == (adding_amount * d) / a);
    vstd::arithmetic::div_mod::lemma_fundamental_div_mod(adding_amount * d, a);
    assert(a * x <= adding_amount * d) by (nonlinear_arith)
        requires
            adding_amount * d == a * x + (adding_amount * d) % a,
            0 <= (adding_amount * d) % a,
    ;
    assert(d2 == d + x);
    assert(a2 == a + adding_amount);
    assert(a * d2 <= a2 * d) by (nonlinear_arith)
        requires
            a * x <= adding_amount * d,
            d2 == d + x,
            a2 == a + adding_amount,
    ;
    assert(lockup_valid(t));
    lemma_released_within(t, now);
    lemma_released_within(l, now);
    if now > l.start_date && now > l.cliff_date {
        assert(t.cliff_date == l.cliff_date);
        if now == l.end_date {
            if now < t.end_date {
                assert(a * d >= 0) by (nonlinear_arith)
                    requires
                        a > 0,
                        d > 0,
                ;
                assert((a * d2) / d2 == a) by (nonlinear_arith)
                    requires
                        d2 > 0,
                ;
                vstd::arithmetic::div_mod::lemma_div_is_ordered(a * d2, a2 * d, d2);
                assert(a2 * (now - t.start_date) >= 0) by (nonlinear_arith)
                    requires
                        a2 > 0,
                        now - t.start_date > 0,
                ;
            }
        } else {
            let m = now - l.start_date;
            if l.is_vesting {
                let period = l.rate.seconds();
                lemma_scaled_no_less(a, a2, d, d2, period);
                assert(a * period >= 0) by (nonlinear_arith)
                    requires
                        a > 0,
                        period > 0,
                ;
                assert(a2 * period >= 0) by (nonlinear_arith)
                    requires
                        a2 > 0,
                        period > 0,
                ;
                let times = m / period;
                vstd::arithmetic::div_mod::lemma_div_pos_is_pos(m, period);
                assert(times * ((a * period) / d) <= times * ((a2 * period) / d2)) by (nonlinear_arith)
                    requires
                        times >= 0,
                        (a * period) / d <= (a2 * period) / d2,
                ;
            } else {
                lemma_scaled_no_less(a, a2, d, d2, m);
                assert(a * m >= 0) by (nonlinear_arith)
                    requires
                        a > 0,
                        m > 0,
                ;
                assert(a2 * m >= 0) by (nonlinear_arith)
                    requires
                        a2 > 0,
                        m > 0,
                ;
            }
        }
    }
}

/// The linear release lies between nothing and the amount, for any dates,
/// when the amount is not negative.
pub proof fn lemma_stream_release_within(start: u64, end: u64, cliff: u64, now: u64, amount: int)
    requires
        amount >= 0,
    ensures
        0 <= stream_receiver(start, end, cliff, now, amount) <= amount,
{
    if now > start && now > cliff && now < end {
        lemma_share_within(amount, now - start, end - start);
    }
}

/// The vesting release lies between nothing and the amount, for any dates,
/// when the amount is not negative.
pub proof fn lemma_vesting_release_within(
    start: u64,
    end: u64,
    cliff: u64,
    now: u64,
    period: int,
    amount: int,
)
    requires
        amount >= 0,
        period > 0,
    ensures
        0 <= vesting_receiver(start, end, cliff, now, period, amount) <= amount,
{
    if now > start && now > cliff && now < end {
        lemma_vesting_within(amount, now - start, period, end - start);
    }
}

/// Whatever the dates, the linear release of a non-negative amount never
/// shrinks as time goes on, so the sender's part never grows.
pub proof fn lemma_stream_release_monotone(
    start: u64,
    end: u64,
    cliff: u64,
    earlier: u64,
    later: u64,
    amount: int,
)
    requires
        amount >= 0,
        earlier <= later,
    ensures
        stream_receiver(start, end, cliff, earlier, amount) <= stream_receiver(
            start,
            end,
            cliff,
            later,
            amount,
        ),
{
    lemma_stream_release_within(start, end, cliff, earlier, amount);
    lemma_stream_release_within(start, end, cliff, later, amount);
    if earlier > start && earlier > cliff && later < end {
        assert(amount * (earlier - start) <= amount * (later - start)) by (nonlinear_arith)
            requires
                amount >= 0,
                earlier <= later,
        ;
        assert(amount * (earlier - start) >= 0) by (nonlinear_arith)
            requires
                amount >= 0,
                earlier > start,
        ;
        vstd::arithmetic::div_mod::lemma_div_is_ordered(
            amount * (earlier - start),
            amount * (later - start),
            end - start,
        );
    }
}

/// Whatever the dates, the vesting release of a non-negative amount never
/// shrinks as time goes on.
pub proof fn lemma_vesting_release_monotone(
    start: u64,
    end: u64,
    cliff: u64,
    earlier: u64,
    later: u64,
    period: int,
    amount: int,
)
    requires
        amount >= 0,
        period > 0,
        earlier <= later,
    ensures
        vesting_receiver(start, end, cliff, earlier, period, amount) <= vesting_receiver(
            start,
            end,
            cliff,
            later,
            period,
            amount,
        ),
{
    lemma_vesting_release_within(start, end, cliff, earlier, period, amount);
    lemma_vesting_release_within(start, end, cliff, later, period, amount);
    if earlier > start && earlier > cliff && later < end {
        let whole = end - start;
        let slice = tdiv(amount * period, whole);
        assert(amount * period >= 0) by (nonlinear_arith)
            requires
                amount >= 0,
                period > 0,
        ;
        assert(slice >= 0) by (nonlinear_arith)
            requires
                amount * period >= 0,
                whole > 0,
                slice == (amount * period) / whole,
        ;
        let t1 = (earlier - start) / period;
        let t2 = (later - start) / period;
        vstd::arithmetic::div_mod::lemma_div_is_ordered(earlier - start, later - start, period);
        assert(t1 * slice <= t2 * slice) by (nonlinear_arith)
            requires
                t1 <= t2,
                slice >= 0,
        ;
    }
}

/// Between the cliff and the end, the vesting release stays the same within
/// a period: it only steps when a whole period has elapsed.
pub proof fn lemma_vesting_steps_at_periods(
    start: u64,
    end: u64,
    cliff: u64,
    earlier: u64,
    later: u64,
    period: int,
    amount: int,
)
    requires
        start < earlier,
        cliff < earlier,
        earlier <= later < end,
        (earlier - start) / period == (later - start) / period,
    ensures
        vesting_receiver(start, end, cliff, earlier, period, amount) == vesting_receiver(
            start,
            end,
            cliff,
            later,
            period,
            amount,
        ),
{
}

/// A vesting schedule never releases more than the linear stream with the
/// same dates and amount.
pub proof fn lemma_vesting_within_stream(
    start: u64,
    end: u64,
    cliff: u64,
    now: u64,
    period: int,
    amount: int,
)
    requires
        amount >= 0,
        period > 0,
    ensures
        0 <= vesting_receiver(start, end, cliff, now, period, amount),
        vesting_receiver(start, end, cliff, now, period, amount) <= stream_receiver(
            start,
            end,
            cliff,
            now,
            amount,
        ),
{
    lemma_vesting_release_within(start, end, cliff, now, period, amount);
    if now > start && now > cliff && now < end {
        let whole = end - start;
        let part = now - start;
        let times = part / period;
        let slice = (amount * period) / whole;
        assert(amount * period >= 0) by (nonlinear_arith)
            requires
                amount >= 0,
                period > 0,
        ;
        assert(amount * part >= 0) by (nonlinear_arith)
            requires
                amount >= 0,
                part > 0,
        ;
        vstd::arithmetic::div_mod::lemma_div_pos_is_pos(part, period);
        vstd::arithmetic::div_mod::lemma_fundamental_div_mod(part, period);
        vstd::arithmetic::div_mod::lemma_fundamental_div_mod(amount * period, whole);
        assert(times * period <= part) by (nonlinear_arith)
            requires
                part == period * times + part % period,
                0 <= part % period,
        ;
        assert(slice * whole <= amount * period) by (nonlinear_arith)
            requires
                amount * period == whole * slice + (amount * period) % whole,
                0 <= (amount * period) % whole,
        ;
        assert(times * slice * whole <= times * amount * period) by (nonlinear_arith)
            requires
                times >= 0,
                slice * whole <= amount * period,
        ;
        assert(times * amount * period <= amount * part) by (nonlinear_arith)
            requires
                amount >= 0,
                times * period <= part,
        ;
        lemma_below_quotient(times * slice, amount * part, whole);
        assert(tdiv(amount * period, whole) == slice);
        assert(tdiv(amount * part, whole) == (amount * part) / whole);
    }
}

/// A lockup with a non-negative amount releases between nothing and its
/// amount, whatever its dates.
pub proof fn lemma_released_bounded(l: Lockup, now: u64)
    requires
        l.amount >= 0,
    ensures
        0 <= released(l, now) <= l.amount,
{
    if l.is_vesting {
        lemma_vesting_release_within(
            l.start_date,
            l.end_date,
            l.cliff_date,
            now,
            l.rate.seconds(),
            l.amount as int,
        );
    } else {
        lemma_stream_release_within(l.start_date, l.end_date, l.cliff_date, now, l.amount as int);
    }
}

/// A withdrawal keeps `0 <= withdrawn <= released <= amount`: it pays a
/// non-negative amount, and the receiver never takes more than has been released.
pub proof fn lemma_withdraw_keeps_within(l: Lockup, now: u64, amount: i128)
    requires
        l.amount >= 0,
        0 <= l.withdrawn <= released(l, now),
        withdraw_refusal(l, now, amount) is None,
    ensures
        withdraw_payout(l, now, amount) >= 0,
        0 <= l.withdrawn + withdraw_payout(l, now, amount) <= released(l, now) <= l.amount,
        withdrawn_lockup(l, now, amount).withdrawn == l.withdrawn + withdraw_payout(
            l,
            now,
            amount,
        ),
{
    lemma_released_bounded(l, now);
}

/// A withdrawal asks nobody's authorization and pays only the lockup's receiver.
pub proof fn lemma_withdraw_pays_only_receiver(l: Lockup, id: u64, now: u64, amount: i128)
    ensures
        forall|i: int|
            0 <= i < withdraw_effects(l, id, now, amount).len() ==> {
                let effect = #[trigger] withdraw_effects(l, id, now, amount)[i];
                &&& !(effect is RequireAuth)
                &&& !(effect is TransferFrom)
                &&& effect matches Effect::Transfer { to, .. } ==> to == l.receiver
            },
{
}

/// Creating a vesting lockup is creating a stream apart from the vesting
/// flag: the same checks, the same effects, the same id, and the same stored
/// lockup but for `is_vesting`.
pub proof fn lemma_vesting_creation_is_stream_creation(v: FluxityView, params: LockupInput)
    ensures
        v.after_create(params, true) == (FluxityView {
            lockups: v.after_create(params, false).lockups.insert(
                v.latest_id(),
                Lockup { is_vesting: true, ..created_lockup(params, false) },
            ),
            ..v.after_create(params, false)
        }),
{
    assert(v.after_create(params, true).lockups =~= v.after_create(params, false).lockups.insert(
        v.latest_id(),
        Lockup { is_vesting: true, ..created_lockup(params, false) },
    ));
}

/// A top-up keeps a lockup that can only be cancelled at its end (and so
/// never) that way: its cancellable date moves out with the end.
pub proof fn lemma_topup_keeps_non_cancellable(l: Lockup, adding_amount: i128)
    requires
        l.cancellable_date == l.end_date,
        topup_computable(l, adding_amount),
    ensures
        topped_up_lockup(l, adding_amount).cancellable_date == topped_up_lockup(
            l,
            adding_amount,
        ).end_date,
{
}

// ------------------------------------------------------------------------
// What each operation answers, stated over its inputs.

/// The periods a vesting schedule releases by, in seconds.
pub proof fn lemma_rate_periods()
    ensures
        Rate::Daily.seconds() == 86400,
        Rate::Weekly.seconds() == 7 * 86400,
        Rate::Monthly.seconds() == 30 * 86400,
        Rate::Quarterly.seconds() == 120 * 86400,
        Rate::Annually.seconds() == 365 * 86400,
{
}

/// The lockup fee is one monthly fee for a lockup shorter than a month, and
/// every further whole month of thirty days adds one more monthly fee,
/// without bound.
pub proof fn lemma_fee_per_started_month(start: u64, end: u64, monthly_fee: int)
    requires
        start <= end,
    ensures
        end - start < 2592000 ==> lockup_fee(start, end, monthly_fee) == monthly_fee,
        end + 2592000 <= u64::MAX ==> lockup_fee(start, (end + 2592000) as u64, monthly_fee)
            == lockup_fee(start, end, monthly_fee) + monthly_fee,
        lockup_fee(start, end, monthly_fee) == ((end - start) / 2592000 + 1) * monthly_fee,
{
    let m = (end - start) / 2592000;
    if end - start < 2592000 {
        vstd::arithmetic::div_mod::lemma_basic_div(end - start, 2592000);
        assert((0 + 1) * monthly_fee == monthly_fee) by (nonlinear_arith);
    }
    assert((end + 2592000 - start) / 2592000 == m + 1);
    assert((m + 1 + 1) * monthly_fee == (m + 1) * monthly_fee + monthly_fee) by (nonlinear_arith);
}

/// Creation is refused exactly when the amount is not positive, the sender
/// is the receiver, the start is not before the end, the cancellable date is
/// after the end, or the cliff lies outside the schedule, with the first of
/// these that holds as the error; every other input is accepted.
pub proof fn lemma_create_refuses_only_bad_input(params: LockupInput)
    ensures
        create_refusal(params) is None <==> {
            &&& params.amount > 0
            &&& params.sender@ != params.receiver@
            &&& params.start_date < params.end_date
            &&& params.cancellable_date <= params.end_date
            &&& params.start_date <= params.cliff_date <= params.end_date
        },
        params.amount <= 0 ==> create_refusal(params) == Some(CustomErrors::InvalidAmount),
        params.amount > 0 && params.sender@ == params.receiver@ ==> create_refusal(params) == Some(
            CustomErrors::InvalidReceiver,
        ),
        params.amount > 0 && params.sender@ != params.receiver@ && params.start_date
            >= params.end_date ==> create_refusal(params) == Some(CustomErrors::InvalidStartDate),
        params.amount > 0 && params.sender@ != params.receiver@ && params.start_date
            < params.end_date && params.cancellable_date > params.end_date ==> create_refusal(params)
            == Some(CustomErrors::InvalidCancellableDate),
        params.amount > 0 && params.sender@ != params.receiver@ && params.start_date
            < params.end_date && params.cancellable_date <= params.end_date && !(params.start_date
            <= params.cliff_date <= params.end_date) ==> create_refusal(params) == Some(
            CustomErrors::InvalidCliffDate,
        ),
{
}

/// A created lockup holds the input's parties, token, amount and dates, with
/// nothing withdrawn, not cancelled, and the kind it was created as; it is
/// stored under the next id, which then moves up by one.
pub proof fn lemma_created_lockup_holds_the_input(v: FluxityView, params: LockupInput, is_vesting: bool)
    ensures
        ({
            let l = v.after_create(params, is_vesting).lockups[v.latest_id()];
            &&& v.after_create(params, is_vesting).lockups.contains_key(v.latest_id())
            &&& l.sender == params.sender
            &&& l.receiver == params.receiver
            &&& l.token == params.token
            &&& l.amount == params.amount
            &&& l.start_date == params.start_date
            &&& l.end_date == params.end_date
            &&& l.cliff_date == params.cliff_date
            &&& l.cancellable_date == params.cancellable_date
            &&& l.rate == params.rate
            &&& l.withdrawn == 0
            &&& !l.is_cancelled
            &&& l.cancelled_date == 0
            &&& l.is_vesting == is_vesting
        }),
        v.latest_id() < u64::MAX ==> v.after_create(params, is_vesting).latest_id() == v.latest_id()
            + 1,
{
}

/// What a lockup with a non-negative amount has released at `now`: nothing
/// up to its start and its cliff, everything from its end on, and in between
/// the elapsed share of the amount for a stream, or one slice of the amount
/// scaled by the period over the duration for every whole period elapsed for
/// a vesting schedule.
pub proof fn lemma_release_by_schedule(l: Lockup, now: u64)
    requires
        l.amount >= 0,
    ensures
        now <= l.start_date || now <= l.cliff_date ==> released(l, now) == 0,
        now > l.start_date && now > l.cliff_date && now >= l.end_date ==> released(l, now)
            == l.amount,
        now > l.start_date && now > l.cliff_date && now < l.end_date && !l.is_vesting ==> released(
            l,
            now,
        ) == (l.amount * (now - l.start_date)) / (l.end_date - l.start_date),
        now > l.start_date && now > l.cliff_date && now < l.end_date && l.is_vesting ==> released(
            l,
            now,
        ) == ((now - l.start_date) / l.rate.seconds()) * ((l.amount * l.rate.seconds()) / (
        l.end_date - l.start_date)),
{
    if now > l.start_date && now > l.cliff_date && now < l.end_date {
        assert(l.amount * (now - l.start_date) >= 0) by (nonlinear_arith)
            requires
                l.amount >= 0,
                now > l.start_date,
        ;
        assert(l.amount * l.rate.seconds() >= 0) by (nonlinear_arith)
            requires
                l.amount >= 0,
                l.rate.seconds() > 0,
        ;
    }
}

/// A cancellation is refused exactly when the lockup was cancelled, its end
/// is reached, or its cancellable date is still ahead.
pub proof fn lemma_cancel_refuses_only(l: Lockup, now: u64)
    ensures
        cancel_refusal(l, now) is None <==> !l.is_cancelled && now < l.end_date
            && l.cancellable_date <= now,
        l.is_cancelled ==> cancel_refusal(l, now) == Some(CustomErrors::LockupAlreadyCanceled),
        !l.is_cancelled && now >= l.end_date ==> cancel_refusal(l, now) == Some(
            CustomErrors::LockupAlreadySettled,
        ),
        !l.is_cancelled && now < l.end_date && l.cancellable_date > now ==> cancel_refusal(l, now)
            == Some(CustomErrors::LockupNotCancellableYet),
{
}

/// A cancellation pays the receiver what the lockup's own schedule released
/// (the vesting schedule for a vesting lockup) less what it withdrew, gives
/// the sender the rest of the amount, and then counts everything released
/// as withdrawn.
pub proof fn lemma_cancel_pays_by_schedule(l: Lockup, now: u64)
    requires
        l.amount >= 0,
        cancel_refusal(l, now) is None,
    ensures
        cancel_sender_part(l, now) == l.amount - l.withdrawn - cancel_receiver_part(l, now),
        cancelled_lockup(l, now).withdrawn == l.withdrawn + cancel_receiver_part(l, now),
        cancelled_lockup(l, now).is_cancelled,
        cancelled_lockup(l, now).cancelled_date == now,
        now <= l.start_date || now <= l.cliff_date ==> cancel_receiver_part(l, now) == -l.withdrawn,
        now > l.start_date && now > l.cliff_date && !l.is_vesting ==> cancel_receiver_part(l, now)
            == (l.amount * (now - l.start_date)) / (l.end_date - l.start_date) - l.withdrawn,
        now > l.start_date && now > l.cliff_date && l.is_vesting ==> cancel_receiver_part(l, now)
            == ((now - l.start_date) / l.rate.seconds()) * ((l.amount * l.rate.seconds()) / (
        l.end_date - l.start_date)) - l.withdrawn,
{
    lemma_release_by_schedule(l, now);
    lemma_released_bounded(l, now);
}

/// A withdrawal is refused for a negative amount, a cancelled lockup, before
/// the start, and for more than was released and not yet withdrawn; up to
/// the cliff it pays nothing; zero takes everything released and not yet
/// withdrawn.
pub proof fn lemma_withdraw_refuses_only(l: Lockup, now: u64, amount: i128)
    ensures
        amount < 0 ==> withdraw_refusal(l, now, amount) == Some(CustomErrors::AmountUnderflows),
        amount >= 0 && l.is_cancelled ==> withdraw_refusal(l, now, amount) == Some(
            CustomErrors::LockupIsCanceled,
        ),
        amount >= 0 && !l.is_cancelled && now <= l.start_date ==> withdraw_refusal(l, now, amount)
            == Some(CustomErrors::LockupNotStartedYet),
        amount >= 0 && !l.is_cancelled && now > l.start_date && now <= l.cliff_date ==> {
            &&& withdraw_refusal(l, now, amount) is None
            &&& withdraw_payout(l, now, amount) == 0
        },
        amount >= 0 && !l.is_cancelled && now > l.start_date && now > l.cliff_date ==> {
            &&& (withdraw_refusal(l, now, amount) is None <==> amount <= released(l, now)
                - l.withdrawn)
            &&& amount > released(l, now) - l.withdrawn ==> withdraw_refusal(l, now, amount)
                == Some(CustomErrors::SpecifiedAmountIsGreaterThanWithdrawable)
            &&& amount == 0 ==> withdraw_payout(l, now, amount) == released(l, now) - l.withdrawn
        },
{
}

/// A withdrawal of a positive amount no larger than what the schedule
/// (linear or vesting) released and was not withdrawn yet, from a lockup that
/// is not cancelled and is past its start and cliff, is accepted and pays
/// exactly that amount.
pub proof fn lemma_withdraw_pays_what_was_asked(l: Lockup, now: u64, amount: i128)
    requires
        l.amount >= 0,
        !l.is_cancelled,
        now > l.start_date,
        now > l.cliff_date,
        amount > 0,
        amount + l.withdrawn <= ({
            if now >= l.end_date {
                l.amount as int
            } else if l.is_vesting {
                ((now - l.start_date) / l.rate.seconds()) * ((l.amount * l.rate.seconds()) / (
                l.end_date - l.start_date))
            } else {
                (l.amount * (now - l.start_date)) / (l.end_date - l.start_date)
            }
        }),
    ensures
        withdraw_refusal(l, now, amount) is None,
        withdraw_payout(l, now, amount) == amount,
        withdrawn_lockup(l, now, amount).withdrawn == l.withdrawn + amount,
{
    lemma_release_by_schedule(l, now);
    lemma_released_bounded(l, now);
}

/// A top-up is refused only for a cancelled lockup or one whose end has
/// passed; streams and vesting schedules alike are topped up.
pub proof fn lemma_topup_refuses_only(l: Lockup, now: u64)
    ensures
        topup_refusal(l, now) is None <==> !l.is_cancelled && now <= l.end_date,
        l.is_cancelled ==> topup_refusal(l, now) == Some(CustomErrors::LockupIsCanceled),
        !l.is_cancelled && now > l.end_date ==> topup_refusal(l, now) == Some(
            CustomErrors::LockupAlreadySettled,
        ),
{
}

/// A top-up adds the amount, and moves the end out by the duration scaled by
/// the added amount over the current amount, keeping everything else that
/// identifies the lockup.
pub proof fn lemma_topup_result(l: Lockup, adding_amount: i128)
    requires
        l.amount > 0,
        adding_amount >= 0,
        l.start_date <= l.end_date,
        topup_computable(l, adding_amount),
    ensures
        topped_up_lockup(l, adding_amount).amount == l.amount + adding_amount,
        topped_up_lockup(l, adding_amount).end_date == l.end_date + (adding_amount * (l.end_date
            - l.start_date)) / (l.amount as int),
        topped_up_lockup(l, adding_amount).start_date == l.start_date,
        topped_up_lockup(l, adding_amount).withdrawn == l.withdrawn,
        topped_up_lockup(l, adding_amount).sender == l.sender,
        topped_up_lockup(l, adding_amount).receiver == l.receiver,
        topped_up_lockup(l, adding_amount).token == l.token,
        topped_up_lockup(l, adding_amount).rate == l.rate,
        topped_up_lockup(l, adding_amount).is_vesting == l.is_vesting,
        topped_up_lockup(l, adding_amount).is_cancelled == l.is_cancelled,
{
    assert(adding_amount * (l.end_date - l.start_date) >= 0) by (nonlinear_arith)
        requires
            adding_amount >= 0,
            l.end_date - l.start_date >= 0,
    ;
}

/// The tokens a list of effects pays out of the contract to `who`.
pub open spec fn paid_to(effects: Seq<Effect>, who: Address) -> int
    decreases effects.len(),
{
    if effects.len() == 0 {
        0
    } else {
        paid_to(effects.drop_last(), who) + match effects.last() {
            Effect::Transfer { to, amount, .. } => if to@ == who@ {
                amount as int
            } else {
                0
            },
            _ => 0,
        }
    }
}

/// The tokens a list of effects pays out of the contract to anyone.
pub open spec fn paid_in_total(effects: Seq<Effect>) -> int
    decreases effects.len(),
{
    if effects.len() == 0 {
        0
    } else {
        paid_in_total(effects.drop_last()) + match effects.last() {
            Effect::Transfer { amount, .. } => amount as int,
            _ => 0,
        }
    }
}

/// A cancellation pays, in the lockup's token, the receiver's part to the
/// receiver and the sender's part to the sender, and nothing else: in total
/// the amount less what was already withdrawn.
pub proof fn lemma_cancel_payments_go_to_the_parties(l: Lockup, now: u64)
    requires
        l.amount >= 0,
        cancel_refusal(l, now) is None,
        0 <= l.withdrawn <= released(l, now),
        l.sender@ != l.receiver@,
    ensures
        paid_to(cancel_payouts(l, now), l.receiver) == cancel_receiver_part(l, now),
        paid_to(cancel_payouts(l, now), l.sender) == cancel_sender_part(l, now),
        paid_in_total(cancel_payouts(l, now)) == l.amount - l.withdrawn,
        forall|i: int|
            0 <= i < cancel_payouts(l, now).len() ==> (#[trigger] cancel_payouts(l, now)[i] matches Effect::Transfer {
                token,
                ..
            } && token == l.token),
{
    lemma_released_bounded(l, now);
    let r = cancel_receiver_part(l, now);
    let s = cancel_sender_part(l, now);
    let to_r = Effect::Transfer { token: l.token, to: l.receiver, amount: r as i128 };
    let to_s = Effect::Transfer { token: l.token, to: l.sender, amount: s as i128 };
    let e = cancel_payouts(l, now);
    reveal_with_fuel(paid_to, 3);
    reveal_with_fuel(paid_in_total, 3);
    if r > 0 && s > 0 {
        assert(e =~= seq![to_r, to_s]);
        assert(e.drop_last() =~= seq![to_r]);
        assert(e.drop_last().drop_last() =~= Seq::<Effect>::empty());
    } else if r > 0 {
        assert(e =~= seq![to_r]);
        assert(e.drop_last() =~= Seq::<Effect>::empty());
    } else if s > 0 {
        assert(e =~= seq![to_s]);
        assert(e.drop_last() =~= Seq::<Effect>::empty());
    } else {
        assert(e =~= Seq::<Effect>::empty());
    }
}

/// A withdrawal that gets past the cliff pays exactly its payout, in the
/// lockup's token, to the receiver alone.
pub proof fn lemma_withdraw_pays_the_receiver(l: Lockup, id: u64, now: u64, amount: i128)
    requires
        fits_i128(withdraw_payout(l, now, amount)),
    ensures
        paid_to(withdraw_effects(l, id, now, amount), l.receiver) == withdraw_payout(l, now, amount),
        paid_in_total(withdraw_effects(l, id, now, amount)) == withdraw_payout(l, now, amount),
        withdraw_effects(l, id, now, amount).contains(
            Effect::Transfer {
                token: l.token,
                to: l.receiver,
                amount: withdraw_payout(l, now, amount) as i128,
            },
        ),
{
    let e = withdraw_effects(l, id, now, amount);
    reveal_with_fuel(paid_to, 4);
    reveal_with_fuel(paid_in_total, 4);
    assert(e.drop_last() =~= seq![e[0], e[1]]);
    assert(e.drop_last().drop_last() =~= seq![e[0]]);
    assert(e.drop_last().drop_last().drop_last() =~= Seq::<Effect>::empty());
    assert(e[1] == Effect::Transfer {
        token: l.token,
        to: l.receiver,
        amount: withdraw_payout(l, now, amount) as i128,
    });
}

/// A creation asks the sender first, takes from the sender alone: the
/// deposit of exactly the amount in the lockup's token into the contract,
/// and at most one fee payment to the admin; it ends by announcing the new id.
pub proof fn lemma_create_takes_the_deposit(v: FluxityView, params: LockupInput)
    requires
        v.admin is Some,
        v.xlm is Some,
    ensures
        v.create_effects(params)[0] == (Effect::RequireAuth { address: params.sender }),
        v.create_effects(params).contains(
            Effect::TransferFrom {
                token: params.token,
                from: params.sender,
                recipient: Recipient::Contract,
                amount: params.amount,
            },
        ),
        v.create_effects(params).last() == (Effect::Publish {
            kind: EventKind::Created,
            id: v.latest_id(),
        }),
        v.create_effects(params).contains(Effect::Save { key: DataKey::Lockup(v.latest_id()) }),
        forall|i: int|
            0 <= i < v.create_effects(params).len() ==> (#[trigger] v.create_effects(params)[i] matches Effect::TransferFrom {
                from,
                recipient,
                ..
            } ==> from == params.sender && (recipient == Recipient::Contract || recipient
                == Recipient::Account(v.admin->0))),
        ({
            let fee = ((params.end_date - params.start_date) / 2592000 + 1) * v.fee();
            &&& fee > 0 ==> v.create_effects(params).contains(
                Effect::TransferFrom {
                    token: v.xlm->0,
                    from: params.sender,
                    recipient: Recipient::Account(v.admin->0),
                    amount: fee as i128,
                },
            )
            &&& fee <= 0 ==> v.create_effects(params).len() == 5
        }),
{
    let e = v.create_effects(params);
    let fee = lockup_fee(params.start_date, params.end_date, v.fee() as int);
    let deposit = Effect::TransferFrom {
        token: params.token,
        from: params.sender,
        recipient: Recipient::Contract,
        amount: params.amount,
    };
    if fee > 0 {
        assert(e[2] == deposit);
        assert(e[1] == Effect::TransferFrom {
            token: v.xlm->0,
            from: params.sender,
            recipient: Recipient::Account(v.admin->0),
            amount: fee as i128,
        });
        assert(e[3] == Effect::Save { key: DataKey::Lockup(v.latest_id()) });
    } else {
        assert(e[1] == deposit);
        assert(e[2] == Effect::Save { key: DataKey::Lockup(v.latest_id()) });
    }
}

/// On an initialized contract whose next id is not the last one, creation
/// can only panic if the fee overflows.
pub proof fn lemma_create_computable_when(v: FluxityView, params: LockupInput)
    requires
        v.admin is Some,
        v.xlm is Some,
        v.latest_id() < u64::MAX,
        params.start_date <= params.end_date,
        fits_i128(((params.end_date - params.start_date) / 2592000 + 1) * v.fee()),
    ensures
        v.create_computable(params),
{
}

/// A top-up moves a cliff and a cancellable date that sat at the end out with
/// the end, and leaves them alone otherwise.
pub proof fn lemma_topup_moves_dates_at_the_end(l: Lockup, adding_amount: i128)
    requires
        topup_computable(l, adding_amount),
    ensures
        l.cliff_date == l.end_date ==> topped_up_lockup(l, adding_amount).cliff_date
            == topped_up_lockup(l, adding_amount).end_date,
        l.cliff_date != l.end_date ==> topped_up_lockup(l, adding_amount).cliff_date
            == l.cliff_date,
        l.cancellable_date == l.end_date ==> topped_up_lockup(l, adding_amount).cancellable_date
            == topped_up_lockup(l, adding_amount).end_date,
        l.cancellable_date != l.end_date ==> topped_up_lockup(l, adding_amount).cancellable_date
            == l.cancellable_date,
{
}

} // verus!
