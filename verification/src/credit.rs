//! Exact token arithmetic.
//!
//! A bucket refills continuously, so its balance is a fraction of a token.
//! To keep that fraction exact the balance is counted in credit units: every
//! elapsed nanosecond earns `earn` units and one request costs `cost` units.
//! A bucket that refills `earn` tokens every `cost` nanoseconds therefore
//! holds `credit / cost` tokens, and a bucket of `capacity` tokens is full at
//! `capacity * cost` units.

use vstd::prelude::*;

verus! {

/// The balance of a full bucket.
pub open spec fn full_credit(capacity: nat, cost: nat) -> nat {
    capacity * cost
}

/// The balance after `elapsed` nanoseconds of refill: what was there plus
/// what was earned, but never more than a full bucket.
pub open spec fn refilled(capacity: nat, earn: nat, cost: nat, credit: nat, elapsed: nat) -> nat {
    let sum = credit + elapsed * earn;
    if sum < full_credit(capacity, cost) {
        sum
    } else {
        full_credit(capacity, cost)
    }
}

/// The number of whole tokens in a balance.
pub open spec fn whole_tokens(cost: nat, credit: nat) -> nat {
    credit / cost
}

/// The least number of nanoseconds after which a balance below one token
/// has grown to a whole token; zero for a balance that already holds one.
pub open spec fn wait_nanos(earn: nat, cost: nat, credit: nat) -> nat {
    if credit >= cost {
        0
    } else {
        ((cost - credit) + earn - 1) as nat / earn
    }
}

/// The product of a 32-bit and a 64-bit number fits comfortably in 128 bits.
pub proof fn lemma_product_bound(a: nat, b: nat)
    requires
        a <= u32::MAX,
        b <= u64::MAX,
    ensures
        a * b <= 0xffff_ffff * 0xffff_ffff_ffff_ffff,
        a * b < 0x1_0000_0000_0000_0000_0000_0000,
{
    assert(a * b <= 0xffff_ffff * 0xffff_ffff_ffff_ffff) by (nonlinear_arith)
        requires
            a <= 0xffff_ffff,
            b <= 0xffff_ffff_ffff_ffff,
    ;
}

/// Waiting `wait_nanos` is enough to earn a whole token, and waiting one
/// nanosecond less is not.
pub proof fn lemma_wait_is_least(earn: nat, cost: nat, credit: nat)
    requires
        earn > 0,
        credit < cost,
    ensures
        wait_nanos(earn, cost, credit) >= 1,
        wait_nanos(earn, cost, credit) <= cost - credit,
        credit + wait_nanos(earn, cost, credit) * earn >= cost,
        credit + (wait_nanos(earn, cost, credit) - 1) * earn < cost,
{
    let need = (cost - credit) as int;
    let e = earn as int;
    let w = (need + e - 1) / e;
    assert(w == wait_nanos(earn, cost, credit));
    assert(w * e <= need + e - 1 && need + e - 1 < w * e + e && 1 <= w && w <= need)
        by (nonlinear_arith)
        requires
            e > 0,
            need > 0,
            w == (need + e - 1) / e,
    ;
    assert((w - 1) * e == w * e - e) by (nonlinear_arith);
}

/// A balance never exceeds a full bucket after a refill, and a refill never
/// takes anything away from a balance that was within the bucket.
pub proof fn lemma_refilled_bounds(capacity: nat, earn: nat, cost: nat, credit: nat, elapsed: nat)
    ensures
        refilled(capacity, earn, cost, credit, elapsed) <= full_credit(capacity, cost),
        credit <= full_credit(capacity, cost) ==> credit <= refilled(
            capacity,
            earn,
            cost,
            credit,
            elapsed,
        ),
{
    assert(elapsed * earn >= 0) by (nonlinear_arith);
}

/// Computes [`refilled`] without overflow for any stored balance.
pub fn refill(capacity: u32, earn: u32, cost: u64, credit: u128, elapsed: u64) -> (r: u128)
    ensures
        r == refilled(capacity as nat, earn as nat, cost as nat, credit as nat, elapsed as nat),
        r <= full_credit(capacity as nat, cost as nat),
{
    proof {
        lemma_product_bound(capacity as nat, cost as nat);
        lemma_product_bound(earn as nat, elapsed as nat);
        assert(elapsed as nat * earn as nat == earn as nat * elapsed as nat) by (nonlinear_arith);
    }
    let full: u128 = (capacity as u128) * (cost as u128);
    if credit >= full {
        proof {
            assert(elapsed as nat * earn as nat >= 0) by (nonlinear_arith);
        }
        return full;
    }
    let gain: u128 = (elapsed as u128) * (earn as u128);
    let sum: u128 = credit + gain;
    if sum < full {
        sum
    } else {
        full
    }
}

/// Computes [`whole_tokens`] for a balance within a bucket of `capacity`.
pub fn tokens_in(capacity: u32, cost: u64, credit: u128) -> (r: u32)
    requires
        cost > 0,
        credit <= full_credit(capacity as nat, cost as nat),
    ensures
        r == whole_tokens(cost as nat, credit as nat),
        r <= capacity,
{
    let q: u128 = credit / (cost as u128);
    proof {
        let c = cost as int;
        let n = credit as int;
        let k = capacity as int;
        assert(n / c <= k) by (nonlinear_arith)
            requires
                c > 0,
                0 <= n <= k * c,
        ;
    }
    q as u32
}

/// Computes [`wait_nanos`].
pub fn wait_for_token(earn: u32, cost: u64, credit: u128) -> (r: u64)
    requires
        earn > 0,
    ensures
        r == wait_nanos(earn as nat, cost as nat, credit as nat),
{
    if credit >= cost as u128 {
        return 0;
    }
    proof {
        lemma_wait_is_least(earn as nat, cost as nat, credit as nat);
    }
    let need: u128 = cost as u128 - credit;
    let w: u128 = (need + (earn as u128) - 1) / (earn as u128);
    w as u64
}

} // verus!
