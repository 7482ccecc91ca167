use vstd::prelude::*;

verus! {

/// Whether `n` is divisible by two (negative numbers included).
pub fn is_even(n: i32) -> (r: bool)
    ensures
        r == (n % 2 == 0),
{
    n % 2 == 0
}

/// Compares a guess with the secret: `0` when equal, `1` when the guess is
/// too high, `-1` when it is too low.
pub fn check_guess(guess: i32, secret: i32) -> (r: i32)
    ensures
        guess == secret ==> r == 0,
        guess > secret ==> r == 1,
        guess < secret ==> r == -1,
{
    if guess == secret {
        0
    } else if guess > secret {
        1
    } else {
        -1
    }
}

/// The sum `cur + (cur + step) + (cur + 2 * step) + ...` over the terms that
/// do not exceed `high`.
pub open spec fn stepped_sum(cur: int, high: int, step: int) -> int
    decreases (if cur > high { 0 } else { high - cur + 1 }),
{
    if step <= 0 || cur > high {
        0
    } else {
        cur + stepped_sum(cur + step, high, step)
    }
}

/// Stores in `total` the sum of `low, low + step, low + 2 * step, ...` up to
/// and including `high`; zero when `low > high`.
pub fn sum_with_step(total: &mut i32, low: i32, high: i32, step: i32)
    requires
        step > 0,
        i32::MIN <= stepped_sum(low as int, high as int, step as int) <= i32::MAX,
    ensures
        *final(total) as int == stepped_sum(low as int, high as int, step as int),
{
    let mut sum: i128 = 0;
    let mut current: i64 = low as i64;
    while current <= high as i64
        invariant
            step > 0,
            low <= current,
            current <= high as int + step as int || current == low,
            sum + stepped_sum(current as int, high as int, step as int) == stepped_sum(
                low as int,
                high as int,
                step as int,
            ),
            -(current - low) * 0x8000_0000 <= sum <= (current - low) * 0x8000_0000,
        decreases (if current > high { 0 } else { high - current + 1 }),
    {
        sum = sum + current as i128;
        current = current + step as i64;
    }
    *total = sum as i32;
}

} // verus!
