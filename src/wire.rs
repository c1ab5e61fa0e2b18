//! What the driver does on its lines, as a sequence of signals, and the
//! shape of one conversion read in that sequence.
use vstd::prelude::*;

use crate::hx711::GainMode;
use crate::sample::word_value;

verus! {

/// The high and low time of one clock pulse, in microseconds.
pub const HX711_DELAY_TIME_US: u32 = 1;

/// One action of the driver on its lines, or one observation of the data line.
pub enum Signal {
    /// The clock line was driven high.
    ClockHigh,
    /// The clock line was driven low.
    ClockLow,
    /// The driver waited this many microseconds.
    Wait(u32),
    /// The data line was sampled; the value is true when it read low.
    DataLow(bool),
    /// The interrupt state of the data line was queried; the value is the answer.
    Listening(bool),
    /// Falling-edge interrupts were enabled.
    Listen,
    /// Interrupts were disabled.
    Unlisten,
    /// The pending-interrupt status was cleared.
    ClearInterrupt,
}

/// A clock pulse that shifts out one data bit: the bit is read while the
/// clock is high, a high bit being a data line that does not read low.
pub open spec fn data_pulse(bit: bool) -> Seq<Signal> {
    seq![
        Signal::ClockHigh,
        Signal::Wait(HX711_DELAY_TIME_US),
        Signal::DataLow(!bit),
        Signal::ClockLow,
        Signal::Wait(HX711_DELAY_TIME_US),
    ]
}

/// A clock pulse that carries no data: it only counts towards the gain
/// selection of the next conversion.
pub open spec fn control_pulse() -> Seq<Signal> {
    seq![
        Signal::ClockHigh,
        Signal::Wait(HX711_DELAY_TIME_US),
        Signal::ClockLow,
        Signal::Wait(HX711_DELAY_TIME_US),
    ]
}

/// The data pulses that shift in `bits`, first bit first.
pub open spec fn data_pulses(bits: Seq<bool>) -> Seq<Signal>
    decreases bits.len(),
{
    if bits.len() == 0 {
        Seq::empty()
    } else {
        data_pulses(bits.drop_last()) + data_pulse(bits.last())
    }
}

/// `n` control pulses.
pub open spec fn control_pulses(n: nat) -> Seq<Signal>
    decreases n,
{
    if n == 0 {
        Seq::empty()
    } else {
        control_pulses((n - 1) as nat) + control_pulse()
    }
}

/// One complete read: the data pulses for `bits`, then the pulses that
/// select `gain` for the next conversion.
pub open spec fn read_frame(bits: Seq<bool>, gain: GainMode) -> Seq<Signal> {
    data_pulses(bits) + control_pulses(gain.pulses())
}

/// The number a sequence of bits spells, most significant bit first.
pub open spec fn bits_value(bits: Seq<bool>) -> nat
    decreases bits.len(),
{
    if bits.len() == 0 {
        0
    } else {
        2 * bits_value(bits.drop_last()) + if bits.last() {
            1nat
        } else {
            0nat
        }
    }
}

/// `after` is `before` followed by one complete read whose 24 data bits
/// spell `raw`, with the pulses that select `gain`.
pub open spec fn shifts_word(before: Seq<Signal>, after: Seq<Signal>, gain: GainMode, raw: nat) -> bool {
    exists|bits: Seq<bool>|
        bits.len() == 24 && bits_value(bits) == raw && after == before + #[trigger] read_frame(
            bits,
            gain,
        )
}

/// `after` is `before` followed by one complete read whose 24 data bits
/// encode `sample` in two's complement, with the pulses that select `gain`.
pub open spec fn shifts_sample(before: Seq<Signal>, after: Seq<Signal>, gain: GainMode, sample: int) -> bool {
    exists|bits: Seq<bool>|
        bits.len() == 24 && word_value(bits_value(bits)) == sample && after == before
            + #[trigger] read_frame(bits, gain)
}

/// The number of times a sequence of signals drives the clock high.
pub open spec fn clock_pulses(t: Seq<Signal>) -> nat
    decreases t.len(),
{
    if t.len() == 0 {
        0
    } else {
        clock_pulses(t.drop_last()) + if t.last() is ClockHigh {
            1nat
        } else {
            0nat
        }
    }
}

/// The interrupt state that the last enabling or disabling in `t` left:
/// `Some(true)` after `Listen`, `Some(false)` after `Unlisten`, `None` when
/// `t` holds neither.
pub open spec fn subscription(t: Seq<Signal>) -> Option<bool>
    decreases t.len(),
{
    if t.len() == 0 {
        None
    } else if t.last() is Listen {
        Some(true)
    } else if t.last() is Unlisten {
        Some(false)
    } else {
        subscription(t.drop_last())
    }
}

/// A sequence of signals that neither enables nor disables interrupts.
pub open spec fn keeps_subscription(t: Seq<Signal>) -> bool {
    forall|i: int| 0 <= i < t.len() ==> !(t[i] is Listen) && !(t[i] is Unlisten)
}

/// Appending signals that neither enable nor disable interrupts leaves the
/// interrupt state as it was.
pub proof fn lemma_subscription_append(t: Seq<Signal>, s: Seq<Signal>)
    requires
        keeps_subscription(s),
    ensures
        subscription(t + s) == subscription(t),
    decreases s.len(),
{
    if s.len() > 0 {
        assert((t + s).drop_last() =~= t + s.drop_last());
        assert((t + s).last() == s.last());
        lemma_subscription_append(t, s.drop_last());
    } else {
        assert(t + s =~= t);
    }
}

proof fn lemma_keeps_concat(a: Seq<Signal>, b: Seq<Signal>)
    requires
        keeps_subscription(a),
        keeps_subscription(b),
    ensures
        keeps_subscription(a + b),
{
    assert forall|i: int| 0 <= i < (a + b).len() implies !((a + b)[i] is Listen) && !((a
        + b)[i] is Unlisten) by {
        if i < a.len() {
            assert((a + b)[i] == a[i]);
        } else {
            assert((a + b)[i] == b[i - a.len()]);
        }
    }
}

/// A read neither enables nor disables interrupts.
pub proof fn lemma_read_frame_keeps(bits: Seq<bool>, gain: GainMode)
    ensures
        keeps_subscription(read_frame(bits, gain)),
{
    lemma_data_pulses_keep(bits);
    lemma_control_pulses_keep(gain.pulses());
    lemma_keeps_concat(data_pulses(bits), control_pulses(gain.pulses()));
}

proof fn lemma_data_pulses_keep(bits: Seq<bool>)
    ensures
        keeps_subscription(data_pulses(bits)),
    decreases bits.len(),
{
    if bits.len() > 0 {
        lemma_data_pulses_keep(bits.drop_last());
        let p = data_pulse(bits.last());
        assert(keeps_subscription(p)) by {
            assert forall|i: int| 0 <= i < p.len() implies !(p[i] is Listen) && !(
            p[i] is Unlisten) by {
                if i == 0 {
                } else if i == 1 {
                } else if i == 2 {
                } else if i == 3 {
                } else {
                }
            }
        }
        lemma_keeps_concat(data_pulses(bits.drop_last()), p);
    }
}

proof fn lemma_control_pulses_keep(n: nat)
    ensures
        keeps_subscription(control_pulses(n)),
    decreases n,
{
    if n > 0 {
        lemma_control_pulses_keep((n - 1) as nat);
        let p = control_pulse();
        assert(keeps_subscription(p)) by {
            assert forall|i: int| 0 <= i < p.len() implies !(p[i] is Listen) && !(
            p[i] is Unlisten) by {
                if i == 0 {
                } else if i == 1 {
                } else if i == 2 {
                } else {
                }
            }
        }
        lemma_keeps_concat(control_pulses((n - 1) as nat), p);
    }
}

proof fn lemma_clock_pulses_concat(a: Seq<Signal>, b: Seq<Signal>)
    ensures
        clock_pulses(a + b) == clock_pulses(a) + clock_pulses(b),
    decreases b.len(),
{
    if b.len() == 0 {
        assert(a + b =~= a);
    } else {
        assert((a + b).drop_last() =~= a + b.drop_last());
        assert((a + b).last() == b.last());
        lemma_clock_pulses_concat(a, b.drop_last());
    }
}

proof fn lemma_data_pulses_clock(bits: Seq<bool>)
    ensures
        clock_pulses(data_pulses(bits)) == bits.len(),
    decreases bits.len(),
{
    if bits.len() > 0 {
        let p = data_pulse(bits.last());
        lemma_data_pulses_clock(bits.drop_last());
        lemma_clock_pulses_concat(data_pulses(bits.drop_last()), p);
        reveal_with_fuel(clock_pulses, 6);
        assert(clock_pulses(p) == 1);
    }
}

proof fn lemma_control_pulses_clock(n: nat)
    ensures
        clock_pulses(control_pulses(n)) == n,
    decreases n,
{
    if n > 0 {
        let p = control_pulse();
        lemma_control_pulses_clock((n - 1) as nat);
        lemma_clock_pulses_concat(control_pulses((n - 1) as nat), p);
        reveal_with_fuel(clock_pulses, 5);
        assert(clock_pulses(p) == 1);
    }
}

/// A read drives the clock high once for each of the 24 data bits, then once
/// more for each pulse of the gain selection: one pulse for `A128`, two for
/// `B32`, three for `A64`.
pub proof fn lemma_read_frame_clock_pulses(bits: Seq<bool>, gain: GainMode)
    requires
        bits.len() == 24,
    ensures
        clock_pulses(read_frame(bits, gain)) == 24 + gain.pulses(),
        clock_pulses(control_pulses(gain.pulses())) == gain.pulses(),
        gain == GainMode::A128 ==> gain.pulses() == 1,
        gain == GainMode::B32 ==> gain.pulses() == 2,
        gain == GainMode::A64 ==> gain.pulses() == 3,
{
    lemma_data_pulses_clock(bits);
    lemma_control_pulses_clock(gain.pulses());
    lemma_clock_pulses_concat(data_pulses(bits), control_pulses(gain.pulses()));
}

} // verus!
