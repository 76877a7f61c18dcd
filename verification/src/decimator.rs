//! Sample-and-hold decimation.
//!
//! At a rate above one, a position that the rate divides captures the sample
//! that arrives there, and every other position repeats the captured sample.
//! At a rate of one or less the signal passes untouched.

use vstd::prelude::*;

verus! {

/// The sample at `position` is captured: the rate is above one and divides the
/// position.
pub open spec fn captures(position: int, rate: int) -> bool {
    rate > 1 && position % rate == 0
}

/// The sample at `position` is replaced by the held one: the rate is above one
/// and does not divide the position.
pub open spec fn repeats(position: int, rate: int) -> bool {
    rate > 1 && position % rate != 0
}

/// What leaves the decimator at `position`.
pub open spec fn output(position: int, rate: int, sample: u32, hold_value: u32) -> u32 {
    if repeats(position, rate) {
        hold_value
    } else {
        sample
    }
}

/// What the decimator holds after `position`.
pub open spec fn next_hold(position: int, rate: int, sample: u32, hold_value: u32) -> u32 {
    if captures(position, rate) {
        sample
    } else {
        hold_value
    }
}

/// Runs the decimator on one sample of one channel. `position` counts the
/// samples of the current block from zero; `hold_value` is the channel's
/// captured sample.
pub fn apply(position: usize, rate: i32, sample: u32, hold_value: &mut u32) -> (out: u32)
    ensures
        out == output(position as int, rate as int, sample, *old(hold_value)),
        *final(hold_value) == next_hold(position as int, rate as int, sample, *old(hold_value)),
        rate <= 1 ==> out == sample && *final(hold_value) == *old(hold_value),
{
    if rate > 1 {
        let period: usize = rate as usize;
        if position % period == 0 {
            *hold_value = sample;
            sample
        } else {
            *hold_value
        }
    } else {
        sample
    }
}

/// What a channel holds before position `k` of a block, when it held `initial`
/// as the block began, `input` is the channel's block and `rates` gives the
/// rate in force at each position.
pub open spec fn hold_before(input: Seq<u32>, rates: Seq<i32>, initial: u32, k: int) -> u32
    decreases k,
{
    if k <= 0 {
        initial
    } else {
        next_hold(
            k - 1,
            rates[k - 1] as int,
            input[k - 1],
            hold_before(input, rates, initial, k - 1),
        )
    }
}

/// What leaves the decimator at position `k` of a block.
pub open spec fn block_output(input: Seq<u32>, rates: Seq<i32>, initial: u32, k: int) -> u32 {
    output(k, rates[k] as int, input[k], hold_before(input, rates, initial, k))
}

/// Where no rate of a block is above one, the block leaves the decimator as it
/// came, and the channel holds at the end what it held at the start.
pub proof fn lemma_unit_rate_is_transparent(input: Seq<u32>, rates: Seq<i32>, initial: u32)
    requires
        input.len() == rates.len(),
        forall|j: int| 0 <= j < rates.len() ==> rates[j] <= 1,
    ensures
        forall|k: int|
            0 <= k < input.len() ==> #[trigger] block_output(input, rates, initial, k) == input[k],
        forall|k: int|
            0 <= k <= input.len() ==> #[trigger] hold_before(input, rates, initial, k) == initial,
{
    assert forall|k: int| 0 <= k <= input.len() implies #[trigger] hold_before(
        input,
        rates,
        initial,
        k,
    ) == initial by {
        lemma_hold_untouched(input, rates, initial, k);
    }
}

proof fn lemma_hold_untouched(input: Seq<u32>, rates: Seq<i32>, initial: u32, k: int)
    requires
        input.len() == rates.len(),
        0 <= k <= input.len(),
        forall|j: int| 0 <= j < rates.len() ==> rates[j] <= 1,
    ensures
        hold_before(input, rates, initial, k) == initial,
    decreases k,
{
    if k > 0 {
        lemma_hold_untouched(input, rates, initial, k - 1);
    }
}

/// A block that repeats one value leaves the decimator as that same value at
/// every position, whatever the channel held before, as soon as the rate at the
/// block's first position is above one. A fixed rate above one is the plain case.
pub proof fn lemma_constant_input_constant_output(
    input: Seq<u32>,
    rates: Seq<i32>,
    initial: u32,
    value: u32,
)
    requires
        input.len() == rates.len(),
        input.len() > 0 ==> rates[0] > 1,
        forall|j: int| 0 <= j < input.len() ==> input[j] == value,
    ensures
        forall|k: int|
            0 <= k < input.len() ==> #[trigger] block_output(input, rates, initial, k) == value,
        forall|k: int|
            0 < k <= input.len() ==> #[trigger] hold_before(input, rates, initial, k) == value,
{
    assert forall|k: int| 0 < k <= input.len() implies #[trigger] hold_before(
        input,
        rates,
        initial,
        k,
    ) == value by {
        lemma_hold_of_constant(input, rates, initial, value, k);
    }
    assert forall|k: int| 0 <= k < input.len() implies #[trigger] block_output(
        input,
        rates,
        initial,
        k,
    ) == value by {
        if k > 0 {
            lemma_hold_of_constant(input, rates, initial, value, k);
        } else {
            assert(captures(0, rates[0] as int));
        }
    }
}

proof fn lemma_hold_of_constant(
    input: Seq<u32>,
    rates: Seq<i32>,
    initial: u32,
    value: u32,
    k: int,
)
    requires
        input.len() == rates.len(),
        0 < k <= input.len(),
        rates[0] > 1,
        forall|j: int| 0 <= j < input.len() ==> input[j] == value,
    ensures
        hold_before(input, rates, initial, k) == value,
    decreases k,
{
    if k > 1 {
        lemma_hold_of_constant(input, rates, initial, value, k - 1);
    } else {
        assert(captures(0, rates[0] as int));
        assert(hold_before(input, rates, initial, 0) == initial);
    }
}

/// The start of the run of `rate` positions in which `k` lies.
pub open spec fn run_start(k: int, rate: int) -> int {
    k - k % rate
}

/// At a fixed rate above one the decimator turns a block into a staircase:
/// every position carries the sample that arrived at the start of its run.
pub proof fn lemma_staircase(input: Seq<u32>, rates: Seq<i32>, initial: u32, rate: i32)
    requires
        input.len() == rates.len(),
        rate > 1,
        forall|j: int| 0 <= j < rates.len() ==> rates[j] == rate,
    ensures
        forall|k: int| 0 <= k ==> 0 <= #[trigger] run_start(k, rate as int) <= k,
        forall|k: int|
            0 <= k < input.len() ==> #[trigger] block_output(input, rates, initial, k)
                == input[run_start(k, rate as int)],
{
    assert forall|k: int| 0 <= k implies 0 <= #[trigger] run_start(k, rate as int) <= k by {
        lemma_run_start(k, rate as int);
    }
    assert forall|k: int| 0 <= k < input.len() implies #[trigger] block_output(
        input,
        rates,
        initial,
        k,
    ) == input[run_start(k, rate as int)] by {
        lemma_run_start(k, rate as int);
        if k > 0 {
            lemma_hold_is_run_start(input, rates, initial, rate, k);
        }
    }
}

proof fn lemma_run_start(k: int, rate: int)
    requires
        0 <= k,
        rate > 1,
    ensures
        0 <= run_start(k, rate) <= k,
        k % rate == 0 ==> run_start(k, rate) == k,
        k > 0 && k % rate != 0 ==> run_start(k, rate) == run_start(k - 1, rate),
{
    assert(0 <= k % rate <= k) by (nonlinear_arith)
        requires
            0 <= k,
            rate > 1,
    ;
    if k > 0 && k % rate != 0 {
        assert((k - 1) % rate == k % rate - 1) by (nonlinear_arith)
            requires
                k > 0,
                rate > 1,
                k % rate != 0,
        ;
    }
}

proof fn lemma_hold_is_run_start(
    input: Seq<u32>,
    rates: Seq<i32>,
    initial: u32,
    rate: i32,
    k: int,
)
    requires
        input.len() == rates.len(),
        rate > 1,
        0 < k <= input.len(),
        forall|j: int| 0 <= j < rates.len() ==> rates[j] == rate,
    ensures
        hold_before(input, rates, initial, k) == input[run_start(k - 1, rate as int)],
    decreases k,
{
    lemma_run_start(k - 1, rate as int);
    if k > 1 && (k - 1) % (rate as int) != 0 {
        lemma_hold_is_run_start(input, rates, initial, rate, k - 1);
    }
}

} // verus!
