use vstd::prelude::*;

use crate::types::{Amounts, Lockup, Rate};

verus! {

/// Thirty days: the length of the month the lockup fee is charged by.
pub const MONTH_IN_SECONDS: u64 = 2592000;

pub open spec fn abs(x: int) -> int {
    if x < 0 {
        -x
    } else {
        x
    }
}

/// Integer division rounded toward zero, as Rust's `/` on signed integers.
pub open spec fn tdiv(a: int, b: int) -> int {
    if (a >= 0) == (b > 0) || a == 0 {
        abs(a) / abs(b)
    } else {
        -(abs(a) / abs(b))
    }
}

pub open spec fn fits_i128(x: int) -> bool {
    i128::MIN <= x <= i128::MAX
}

/// The part of `amount` a linear stream has released to the receiver at `now`:
/// nothing up to the start and up to the cliff, everything from the end on,
/// and in between the share proportional to the time elapsed since the start.
pub open spec fn stream_receiver(start: u64, end: u64, cliff: u64, now: u64, amount: int) -> int {
    if now <= start || now <= cliff {
        0
    } else if now >= end {
        amount
    } else {
        tdiv(amount * (now - start), end - start)
    }
}

/// Whether the product that the linear split computes fits in an `i128`.
pub open spec fn stream_fits(start: u64, end: u64, cliff: u64, now: u64, amount: int) -> bool {
    (start < now && cliff < now && now < end) ==> fits_i128(amount * (now - start))
}

/// The part of `amount` a vesting schedule has released to the receiver at
/// `now`: between the cliff and the end, one slice per whole period elapsed,
/// a slice being the amount scaled by the period over the whole duration.
pub open spec fn vesting_receiver(
    start: u64,
    end: u64,
    cliff: u64,
    now: u64,
    period: int,
    amount: int,
) -> int {
    if now <= start || now <= cliff {
        0
    } else if now >= end {
        amount
    } else {
        ((now - start) / period) * tdiv(amount * period, end - start)
    }
}

/// Whether the product that the vesting split computes fits in an `i128`.
pub open spec fn vesting_fits(
    start: u64,
    end: u64,
    cliff: u64,
    now: u64,
    period: int,
    amount: int,
) -> bool {
    (start < now && cliff < now && now < end) ==> fits_i128(amount * period)
}

/// The fee for a lockup: one monthly fee for every started month.
pub open spec fn lockup_fee(start: u64, end: u64, monthly_fee: int) -> int {
    ((end - start) / (MONTH_IN_SECONDS as int) + 1) * monthly_fee
}

/// The time a top-up adds to a lockup: the duration scaled by the added
/// amount over the current amount.
pub open spec fn additional_time(lockup: Lockup, adding_amount: int) -> int {
    tdiv(adding_amount * (lockup.end_date - lockup.start_date), lockup.amount as int)
}

/// Whether computing the additional time neither overflows nor fails to fit a `u64`.
pub open spec fn additional_time_computable(lockup: Lockup, adding_amount: int) -> bool {
    &&& lockup.start_date <= lockup.end_date
    &&& lockup.amount != 0
    &&& fits_i128(adding_amount * (lockup.end_date - lockup.start_date))
    &&& fits_i128(additional_time(lockup, adding_amount))
    &&& 0 <= additional_time(lockup, adding_amount) <= u64::MAX
}

/// Dividing by a negative number flips the sign of the quotient by its magnitude.
proof fn lemma_div_by_negative(a: int, b: int)
    requires
        b < 0,
    ensures
        a / b == -(a / (-b)),
{
    let q = a / b;
    let r = a % b;
    let q2 = a / (-b);
    let r2 = a % (-b);
    vstd::arithmetic::div_mod::lemma_fundamental_div_mod(a, b);
    vstd::arithmetic::div_mod::lemma_fundamental_div_mod(a, -b);
    assert(0 <= r < -b);
    assert(0 <= r2 < -b);
    assert(b * q + r == a);
    assert((-b) * q2 + r2 == a);
    assert(b * (q + q2) == r2 - r) by (nonlinear_arith)
        requires
            b * q + r == a,
            (-b) * q2 + r2 == a,
    ;
    assert(q + q2 == 0) by (nonlinear_arith)
        requires
            b * (q + q2) == r2 - r,
            b < 0,
            0 <= r < -b,
            0 <= r2 < -b,
    ;
}

/// A quotient of naturals is no larger than the dividend, and at most half of
/// it when the divisor is two or more.
proof fn lemma_quotient_small(n: int, d: int)
    requires
        n >= 0,
        d >= 1,
    ensures
        0 <= n / d <= n,
        d >= 2 ==> n / d <= n / 2,
{
    vstd::arithmetic::div_mod::lemma_div_pos_is_pos(n, d);
    vstd::arithmetic::div_mod::lemma_div_is_ordered_by_denominator(n, 1, d);
    if d >= 2 {
        vstd::arithmetic::div_mod::lemma_div_is_ordered_by_denominator(n, 2, d);
    }
}

/// `a / b` on `i128`, rounded toward zero.
pub(crate) fn div_toward_zero(a: i128, b: i128) -> (q: i128)
    requires
        b != 0,
        !(a == i128::MIN && b == -1),
    ensures
        q == tdiv(a as int, b as int),
{
    let q = a / b;
    if a >= 0 && b > 0 {
        assert(q as int == tdiv(a as int, b as int));
    } else if a < 0 && b > 0 {
        assert(q as int == tdiv(a as int, b as int));
    } else if a >= 0 && b < 0 {
        proof { lemma_div_by_negative(a as int, b as int); }
        assert(q as int == -((a as int) / (-(b as int))));
        assert(abs(b as int) == -(b as int));
        assert(abs(a as int) == a as int);
        assert(q as int == tdiv(a as int, b as int));
    } else {
        proof {
            lemma_div_by_negative(-(a as int), b as int);
            lemma_quotient_small(-(a as int), -(b as int));
        }
        assert(q as int == (-(a as int)) / (-(b as int)));
        assert(abs(b as int) == -(b as int));
        assert(abs(a as int) == -(a as int));
        assert(q as int == tdiv(a as int, b as int));
    }
    q
}

/// A share `amount * part / whole` of an amount, for `0 <= part <= whole`,
/// lies between zero and the amount.
pub proof fn lemma_share_within(amount: int, part: int, whole: int)
    requires
        0 <= part <= whole,
        0 < whole,
    ensures
        amount >= 0 ==> 0 <= tdiv(amount * part, whole) <= amount,
        amount < 0 ==> amount <= tdiv(amount * part, whole) <= 0,
{
    if amount >= 0 {
        assert(0 <= amount * part <= amount * whole) by (nonlinear_arith)
            requires
                amount >= 0,
                0 <= part <= whole,
        ;
        assert((amount * whole) / whole == amount) by (nonlinear_arith)
            requires
                whole > 0,
        ;
        lemma_div_monotone(amount * part, amount * whole, whole);
        assert(0 <= (amount * part) / whole) by (nonlinear_arith)
            requires
                amount * part >= 0,
                whole > 0,
        ;
    } else {
        let m = -amount;
        assert(amount * part == -(m * part)) by (nonlinear_arith)
            requires
                m == -amount,
        ;
        assert(0 <= m * part <= m * whole) by (nonlinear_arith)
            requires
                m > 0,
                0 <= part <= whole,
        ;
        assert((m * whole) / whole == m) by (nonlinear_arith)
            requires
                whole > 0,
        ;
        lemma_div_monotone(m * part, m * whole, whole);
        assert(0 <= (m * part) / whole) by (nonlinear_arith)
            requires
                m * part >= 0,
                whole > 0,
        ;
    }
}

proof fn lemma_div_monotone(x: int, y: int, d: int)
    requires
        0 <= x <= y,
        d > 0,
    ensures
        x / d <= y / d,
{
    vstd::arithmetic::div_mod::lemma_div_is_ordered(x, y, d);
}

/// A vesting release `(part / period) * (amount * period / whole)`, for
/// `0 <= part <= whole`, lies between zero and the amount.
pub proof fn lemma_vesting_within(amount: int, part: int, period: int, whole: int)
    requires
        0 <= part <= whole,
        0 < whole,
        0 < period,
    ensures
        amount >= 0 ==> 0 <= (part / period) * tdiv(amount * period, whole) <= amount,
        amount < 0 ==> amount <= (part / period) * tdiv(amount * period, whole) <= 0,
{
    let times = part / period;
    let m = abs(amount);
    let slice = (m * period) / whole;
    assert(0 <= times) by (nonlinear_arith)
        requires
            part >= 0,
            period > 0,
            times == part / period,
    ;
    assert(times * period <= part) by (nonlinear_arith)
        requires
            part >= 0,
            period > 0,
            times == part / period,
    ;
    assert(0 <= m * period) by (nonlinear_arith)
        requires
            m >= 0,
            period > 0,
    ;
    assert(0 <= slice && slice * whole <= m * period) by (nonlinear_arith)
        requires
            m * period >= 0,
            whole > 0,
            slice == (m * period) / whole,
    ;
    assert(0 <= times * slice) by (nonlinear_arith)
        requires
            times >= 0,
            slice >= 0,
    ;
    assert(times * slice * whole <= times * m * period) by (nonlinear_arith)
        requires
            times >= 0,
            slice * whole <= m * period,
    ;
    assert(times * m * period <= part * m) by (nonlinear_arith)
        requires
            m >= 0,
            times * period <= part,
    ;
    assert(part * m <= whole * m) by (nonlinear_arith)
        requires
            m >= 0,
            part <= whole,
    ;
    assert(times * slice <= m) by (nonlinear_arith)
        requires
            times * slice * whole <= whole * m,
            whole > 0,
    ;
    if amount >= 0 {
        assert(tdiv(amount * period, whole) == slice) by (nonlinear_arith)
            requires
                amount >= 0,
                period > 0,
                whole > 0,
                m == amount,
                slice == (m * period) / whole,
        ;
    } else {
        assert(amount * period == -(m * period)) by (nonlinear_arith)
            requires
                m == -amount,
        ;
        if m * period > 0 {
            assert(tdiv(amount * period, whole) == -slice);
        } else {
            assert(slice == 0);
        }
        assert(times * (-slice) == -(times * slice)) by (nonlinear_arith);
    }
}

/// Splits a linear stream's amount at `current_date` between what goes back
/// to the sender and what the receiver has earned.
pub fn calculate_stream_amounts(
    start_date: u64,
    end_date: u64,
    cliff_date: u64,
    current_date: u64,
    amount: i128,
) -> (amounts: Amounts)
    requires
        stream_fits(start_date, end_date, cliff_date, current_date, amount as int),
    ensures
        amounts.receiver_amount == stream_receiver(
            start_date,
            end_date,
            cliff_date,
            current_date,
            amount as int,
        ),
        amounts.sender_amount + amounts.receiver_amount == amount,
        amount >= 0 ==> 0 <= amounts.receiver_amount <= amount,
{
    if current_date <= start_date {
        return Amounts { sender_amount: amount, receiver_amount: 0 };
    }
    if current_date <= cliff_date {
        return Amounts { sender_amount: amount, receiver_amount: 0 };
    }
    if current_date >= end_date {
        return Amounts { sender_amount: 0, receiver_amount: amount };
    }
    let total_date: i128 = (end_date - start_date) as i128;
    let proceeded_date: i128 = (current_date - start_date) as i128;
    proof {
        lemma_share_within(amount as int, proceeded_date as int, total_date as int);
    }
    let receiver_amount = div_toward_zero(amount * proceeded_date, total_date);
    let sender_amount = amount - receiver_amount;
    Amounts { sender_amount, receiver_amount }
}

/// Splits a vesting schedule's amount at `current_date` between what goes
/// back to the sender and what the receiver has earned.
pub fn calculate_vesting_amounts(
    start_date: u64,
    end_date: u64,
    cliff_date: u64,
    current_date: u64,
    rate: Rate,
    amount: i128,
) -> (amounts: Amounts)
    requires
        vesting_fits(start_date, end_date, cliff_date, current_date, rate.seconds(), amount as int),
    ensures
        amounts.receiver_amount == vesting_receiver(
            start_date,
            end_date,
            cliff_date,
            current_date,
            rate.seconds(),
            amount as int,
        ),
        amounts.sender_amount + amounts.receiver_amount == amount,
        amount >= 0 ==> 0 <= amounts.receiver_amount <= amount,
{
    if current_date <= start_date || current_date <= cliff_date {
        return Amounts { sender_amount: amount, receiver_amount: 0 };
    }
    if current_date >= end_date {
        return Amounts { sender_amount: 0, receiver_amount: amount };
    }
    let total_date: i128 = (end_date - start_date) as i128;
    let proceeded_date: i128 = (current_date - start_date) as i128;
    let rate_in_seconds: i128 = rate.in_seconds() as i128;
    let times = proceeded_date / rate_in_seconds;
    let one_time_amount = div_toward_zero(amount * rate_in_seconds, total_date);
    proof {
        lemma_vesting_within(
            amount as int,
            proceeded_date as int,
            rate_in_seconds as int,
            total_date as int,
        );
    }
    let receiver_amount = times * one_time_amount;
    let sender_amount = amount - receiver_amount;
    Amounts { sender_amount, receiver_amount }
}

/// How much longer a lockup runs when `adding_amount` is added to it, so that
/// it keeps releasing at the same pace.
pub fn calculate_additional_time(lockup: &Lockup, adding_amount: i128) -> (extra: u64)
    requires
        additional_time_computable(*lockup, adding_amount as int),
    ensures
        extra == additional_time(*lockup, adding_amount as int),
{
    let duration: i128 = (lockup.end_date - lockup.start_date) as i128;
    let product = adding_amount * duration;
    proof {
        if product == i128::MIN && lockup.amount == -1 {
            assert(abs(product as int) / 1 == abs(product as int));
            assert(additional_time(*lockup, adding_amount as int) == -(product as int));
        }
    }
    let scaled = div_toward_zero(product, lockup.amount);
    let converted: Result<u64, _> = scaled.try_into();
    match converted {
        Ok(v) => v,
        Err(_) => {
            proof {
                assert(false);
            }
            0
        },
    }
}

/// The fee for locking from `start_date` to `end_date`: the monthly fee for
/// each whole month of the duration, plus one.
pub fn calculate_lockup_fee(start_date: u64, end_date: u64, monthly_fee: i128) -> (fee: i128)
    requires
        start_date <= end_date,
        fits_i128(lockup_fee(start_date, end_date, monthly_fee as int)),
    ensures
        fee == lockup_fee(start_date, end_date, monthly_fee as int),
{
    let lockup_duration = end_date - start_date;
    let months = lockup_duration / MONTH_IN_SECONDS;
    let months_plus: i128 = (months + 1) as i128;
    months_plus * monthly_fee
}

} // verus!
