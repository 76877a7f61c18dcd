//! Per-channel state of the effect and the operations that keep it.

use vstd::prelude::*;
use crate::decimator;
use crate::sample::ZERO;

verus! {

/// Mathematical state of one effect instance.
pub struct EffectState {
    /// Pattern of the engine's sample rate.
    pub sample_rate: u32,
    /// Feedback memory of the lowpass, one slot per channel.
    pub filter_state: Seq<u32>,
    /// Sample captured by the decimator, one slot per channel.
    pub hold_value: Seq<u32>,
}

/// `count` cleared slots.
pub open spec fn cleared(count: nat) -> Seq<u32> {
    Seq::new(count, |i: int| ZERO)
}

/// Number of channels that a layout with the given main output has: a
/// layout without one has none.
pub open spec fn channels_of(main_output_channels: Option<u32>) -> nat {
    match main_output_channels {
        Some(count) => count as nat,
        None => 0,
    }
}

impl EffectState {
    /// Both buffers have one slot per channel.
    pub open spec fn wf(self) -> bool {
        self.filter_state.len() == self.hold_value.len()
    }

    pub open spec fn channel_count(self) -> nat {
        self.hold_value.len()
    }

    /// The state before any configuration: no channel, sample rate zero.
    pub open spec fn initial() -> EffectState {
        EffectState { sample_rate: ZERO, filter_state: Seq::empty(), hold_value: Seq::empty() }
    }

    /// The state after the channel count was set: `channel_count` cleared slots
    /// in each buffer.
    pub open spec fn reconfigure(self, channel_count: nat) -> EffectState {
        EffectState {
            sample_rate: self.sample_rate,
            filter_state: cleared(channel_count),
            hold_value: cleared(channel_count),
        }
    }

    /// The state after the engine was configured.
    pub open spec fn initialize(
        self,
        sample_rate: u32,
        main_output_channels: Option<u32>,
    ) -> EffectState {
        EffectState {
            sample_rate,
            filter_state: cleared(channels_of(main_output_channels)),
            hold_value: cleared(channels_of(main_output_channels)),
        }
    }

    /// The state after a playback reset: every slot cleared, nothing resized.
    pub open spec fn reset(self) -> EffectState {
        EffectState {
            sample_rate: self.sample_rate,
            filter_state: cleared(self.filter_state.len()),
            hold_value: cleared(self.hold_value.len()),
        }
    }

    /// The state after the decimator saw `sample` on `channel`.
    pub open spec fn decimate(self, channel: int, position: int, rate: int, sample: u32) -> EffectState {
        EffectState {
            sample_rate: self.sample_rate,
            filter_state: self.filter_state,
            hold_value: self.hold_value.update(
                channel,
                decimator::next_hold(position, rate, sample, self.hold_value[channel]),
            ),
        }
    }

    /// The state after the lowpass left `value` as the memory of `channel`.
    pub open spec fn store_filter_state(self, channel: int, value: u32) -> EffectState {
        EffectState {
            sample_rate: self.sample_rate,
            filter_state: self.filter_state.update(channel, value),
            hold_value: self.hold_value,
        }
    }

    /// The state after the decimator saw the first `k` samples of a block on
    /// `channel`, with `rates` giving the rate in force at each position.
    pub open spec fn decimate_block(
        self,
        channel: int,
        input: Seq<u32>,
        rates: Seq<i32>,
        k: int,
    ) -> EffectState
        decreases k,
    {
        if k <= 0 {
            self
        } else {
            self.decimate_block(channel, input, rates, k - 1).decimate(
                channel,
                k - 1,
                rates[k - 1] as int,
                input[k - 1],
            )
        }
    }
}

/// State of one effect instance: the sample rate and, per channel, the memory
/// of the lowpass and the sample that the decimator holds.
pub struct SimpleBitcrush {
    sample_rate: u32,
    filter_state: Vec<u32>,
    hold_value: Vec<u32>,
}

impl View for SimpleBitcrush {
    type V = EffectState;

    closed spec fn view(&self) -> EffectState {
        EffectState {
            sample_rate: self.sample_rate,
            filter_state: self.filter_state@,
            hold_value: self.hold_value@,
        }
    }
}

impl Default for SimpleBitcrush {
    /// An instance that no engine has configured yet.
    fn default() -> (effect: Self)
        ensures
            effect.wf(),
            effect@ == EffectState::initial(),
    {
        SimpleBitcrush { sample_rate: ZERO, filter_state: Vec::new(), hold_value: Vec::new() }
    }
}

impl SimpleBitcrush {
    /// Both buffers have one slot per channel.
    pub open spec fn wf(&self) -> bool {
        self@.wf()
    }

    /// Sets the channel count: both buffers are replaced by `channel_count`
    /// cleared slots, whatever they held.
    pub fn reconfigure(&mut self, channel_count: usize)
        ensures
            final(self).wf(),
            final(self)@ == old(self)@.reconfigure(channel_count as nat),
            final(self)@.channel_count() == channel_count,
    {
        self.filter_state = vec![ZERO; channel_count];
        self.hold_value = vec![ZERO; channel_count];
        assert(self.filter_state@ =~= cleared(channel_count as nat));
        assert(self.hold_value@ =~= cleared(channel_count as nat));
    }

    /// Takes the engine's configuration: the pattern of its sample rate and the
    /// channel count of its main output, if it has one. Always succeeds.
    pub fn initialize(&mut self, sample_rate: u32, main_output_channels: Option<u32>) -> (ok: bool)
        ensures
            ok,
            final(self).wf(),
            final(self)@ == old(self)@.initialize(sample_rate, main_output_channels),
            final(self)@.channel_count() == channels_of(main_output_channels),
    {
        let count: u32 = match main_output_channels {
            Some(count) => count,
            None => 0,
        };
        self.sample_rate = sample_rate;
        self.reconfigure(count as usize);
        true
    }

    /// Clears every slot in place. Nothing is allocated or resized.
    pub fn reset(&mut self)
        requires
            old(self).wf(),
        ensures
            final(self).wf(),
            final(self)@ == old(self)@.reset(),
            final(self)@.channel_count() == old(self)@.channel_count(),
    {
        let count: usize = self.hold_value.len();
        let mut channel: usize = 0;
        while channel < count
            invariant
                channel <= count,
                self.sample_rate == old(self).sample_rate,
                self.filter_state@.len() == count,
                self.hold_value@.len() == count,
                forall|i: int| 0 <= i < channel ==> self.filter_state@[i] == ZERO,
                forall|i: int| 0 <= i < channel ==> self.hold_value@[i] == ZERO,
            decreases count - channel,
        {
            self.filter_state[channel] = ZERO;
            self.hold_value[channel] = ZERO;
            channel += 1;
        }
        assert(self.filter_state@ =~= cleared(count as nat));
        assert(self.hold_value@ =~= cleared(count as nat));
    }

    /// Number of channels that the buffers are sized for.
    pub fn channel_count(&self) -> (count: usize)
        ensures
            count == self@.channel_count(),
    {
        self.hold_value.len()
    }

    /// Pattern of the sample rate that the engine gave last.
    pub fn sample_rate(&self) -> (bits: u32)
        ensures
            bits == self@.sample_rate,
    {
        self.sample_rate
    }

    /// Memory of the lowpass on `channel`.
    pub fn filter_state(&self, channel: usize) -> (bits: u32)
        requires
            self.wf(),
            channel < self@.channel_count(),
        ensures
            bits == self@.filter_state[channel as int],
    {
        self.filter_state[channel]
    }

    /// Sample that the decimator holds on `channel`.
    pub fn hold_value(&self, channel: usize) -> (bits: u32)
        requires
            self.wf(),
            channel < self@.channel_count(),
        ensures
            bits == self@.hold_value[channel as int],
    {
        self.hold_value[channel]
    }

    /// Runs the decimator on the sample of `channel` at `position` of the
    /// current block, and returns what goes on to the lowpass. Only the hold
    /// slot of `channel` can change.
    pub fn decimate(&mut self, channel: usize, position: usize, rate: i32, sample: u32) -> (out: u32)
        requires
            old(self).wf(),
            channel < old(self)@.channel_count(),
        ensures
            final(self).wf(),
            final(self)@ == old(self)@.decimate(channel as int, position as int, rate as int, sample),
            out == decimator::output(
                position as int,
                rate as int,
                sample,
                old(self)@.hold_value[channel as int],
            ),
            rate <= 1 ==> out == sample && final(self)@ == old(self)@,
    {
        let mut held: u32 = self.hold_value[channel];
        let out = decimator::apply(position, rate, sample, &mut held);
        self.hold_value[channel] = held;
        assert(self.hold_value@ =~= old(self).hold_value@.update(
            channel as int,
            decimator::next_hold(
                position as int,
                rate as int,
                sample,
                old(self).hold_value@[channel as int],
            ),
        ));
        assert(rate <= 1 ==> self.hold_value@ =~= old(self).hold_value@);
        out
    }

    /// Keeps `value` as the memory of the lowpass on `channel`.
    pub fn store_filter_state(&mut self, channel: usize, value: u32)
        requires
            old(self).wf(),
            channel < old(self)@.channel_count(),
        ensures
            final(self).wf(),
            final(self)@ == old(self)@.store_filter_state(channel as int, value),
    {
        self.filter_state[channel] = value;
    }
}

/// Setting the channel count twice to the same count gives what setting it
/// once gives: two buffers of that many slots, every slot cleared.
pub proof fn lemma_reconfigure_idempotent(state: EffectState, channel_count: nat)
    ensures
        state.reconfigure(channel_count).reconfigure(channel_count) == state.reconfigure(
            channel_count,
        ),
        state.reconfigure(channel_count).wf(),
        state.reconfigure(channel_count).channel_count() == channel_count,
        state.reconfigure(channel_count).filter_state.len() == channel_count,
        forall|i: int|
            0 <= i < channel_count ==> #[trigger] state.reconfigure(channel_count).filter_state[i]
                == ZERO,
        forall|i: int|
            0 <= i < channel_count ==> #[trigger] state.reconfigure(channel_count).hold_value[i]
                == ZERO,
{
}

/// A reset right after the channel count was set changes nothing, and a second
/// reset changes nothing after a first.
pub proof fn lemma_reset_keeps_cleared(state: EffectState, channel_count: nat)
    ensures
        state.reconfigure(channel_count).reset() == state.reconfigure(channel_count),
        state.reset().reset() == state.reset(),
        state.wf() ==> state.reset().wf(),
{
    let fresh = state.reconfigure(channel_count);
    assert(fresh.reset().filter_state =~= fresh.filter_state);
    assert(fresh.reset().hold_value =~= fresh.hold_value);
    assert(state.reset().reset().filter_state =~= state.reset().filter_state);
    assert(state.reset().reset().hold_value =~= state.reset().hold_value);
}

/// Channels do not touch each other: the decimator on one channel leaves every
/// other slot as it was, so two channels of a frame can be run in either order.
pub proof fn lemma_channels_are_independent(
    state: EffectState,
    position: int,
    rate: int,
    a: int,
    sample_a: u32,
    b: int,
    sample_b: u32,
)
    requires
        state.wf(),
        0 <= a < state.channel_count(),
        0 <= b < state.channel_count(),
        a != b,
    ensures
        state.decimate(a, position, rate, sample_a).hold_value[b] == state.hold_value[b],
        state.decimate(a, position, rate, sample_a).filter_state == state.filter_state,
        state.decimate(a, position, rate, sample_a).decimate(b, position, rate, sample_b)
            == state.decimate(b, position, rate, sample_b).decimate(a, position, rate, sample_a),
{
    let ab = state.decimate(a, position, rate, sample_a).decimate(b, position, rate, sample_b);
    let ba = state.decimate(b, position, rate, sample_b).decimate(a, position, rate, sample_a);
    assert(ab.hold_value =~= ba.hold_value);
}

/// Running the decimator sample by sample over the start of a block changes
/// only the hold slot of that channel, and leaves in it what
/// `decimator::hold_before` gives; what it returns at position `k` is then
/// `decimator::block_output` at `k`.
pub proof fn lemma_block_follows_decimator(
    state: EffectState,
    channel: int,
    input: Seq<u32>,
    rates: Seq<i32>,
    k: int,
)
    requires
        state.wf(),
        0 <= channel < state.channel_count(),
        input.len() == rates.len(),
        0 <= k <= input.len(),
    ensures
        state.decimate_block(channel, input, rates, k) == (EffectState {
            sample_rate: state.sample_rate,
            filter_state: state.filter_state,
            hold_value: state.hold_value.update(
                channel,
                decimator::hold_before(input, rates, state.hold_value[channel], k),
            ),
        }),
        k < input.len() ==> decimator::output(
            k,
            rates[k] as int,
            input[k],
            state.decimate_block(channel, input, rates, k).hold_value[channel],
        ) == decimator::block_output(input, rates, state.hold_value[channel], k),
    decreases k,
{
    let initial = state.hold_value[channel];
    if k <= 0 {
        assert(state.hold_value.update(channel, initial) =~= state.hold_value);
    } else {
        lemma_block_follows_decimator(state, channel, input, rates, k - 1);
        let before = state.decimate_block(channel, input, rates, k - 1);
        let after = state.decimate_block(channel, input, rates, k);
        assert(after.hold_value =~= state.hold_value.update(
            channel,
            decimator::hold_before(input, rates, initial, k),
        ));
    }
}

} // verus!
