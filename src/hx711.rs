//! The HX711 protocol engine and its calibration and readout facade.
use vstd::prelude::*;

use crate::hal::{DigitalInput, DigitalOutput, MicroDelay};
use crate::sample::{decode_sample, word_value, DATA_BITS, HX711_MAXIMUM, HX711_MINIMUM};
use crate::tare::TareAverage;
use crate::wire::{
    bits_value, control_pulse, control_pulses, data_pulse, data_pulses, lemma_read_frame_keeps,
    lemma_subscription_append, read_frame, shifts_sample, shifts_word, subscription, Signal,
    HX711_DELAY_TIME_US,
};

pub mod interrupt;

verus! {

/// The amplifier gain and channel of the next conversion. The chip learns it
/// from the number of extra clock pulses that follow the 24 data bits.
#[derive(Clone, Copy, Debug, PartialEq, Eq, Structural)]
pub enum GainMode {
    /// Gain 128 on channel A: one extra pulse.
    A128,
    /// Gain 32 on channel B: two extra pulses.
    B32,
    /// Gain 64 on channel A: three extra pulses.
    A64,
}

impl GainMode {
    /// The number of extra clock pulses that select this mode.
    pub open spec fn pulses(self) -> nat {
        match self {
            GainMode::A128 => 1,
            GainMode::B32 => 2,
            GainMode::A64 => 3,
        }
    }

    /// The number of extra clock pulses that select this mode.
    pub fn pulse_count(self) -> (n: u8)
        ensures
            n == self.pulses(),
    {
        match self {
            GainMode::A128 => 1,
            GainMode::B32 => 2,
            GainMode::A64 => 3,
        }
    }
}

/// The pause between two readiness polls of a tare, in microseconds.
pub const HX711_TARE_DELAY_TIME_US: u32 = 5000;

/// The pause after each sample of a tare, which lets the chip complete a
/// new conversion, in microseconds.
pub const HX711_TARE_SLEEP_TIME_US: u32 = 10000;

/// Returned by a read attempted before the chip has a new conversion ready.
#[derive(Debug)]
pub struct NotReadyError;

/// An offset that keeps `sample - offset` within `i32` for every sample the
/// chip can report.
pub open spec fn offset_in_range(offset: int) -> bool {
    HX711_MAXIMUM - i32::MAX <= offset <= HX711_MINIMUM - i32::MIN
}

impl NotReadyError {
    /// A short description of the error.
    pub fn message(&self) -> (m: &'static str)
        ensures
            m@ == "Device not ready to read"@,
    {
        let m = "Device not ready to read";
        proof {
            reveal_strlit("Device not ready to read");
        }
        m
    }
}

/// Device driver for the HX711 load-cell amplifier. It owns the clock line,
/// the data line and the delay source.
pub struct HX711<SckPin, DTPin, Delay> {
    sck_pin: SckPin,
    dt_pin: DTPin,
    delay: Delay,
    last_reading: i32,
    gain_mode: GainMode,
    offset: i32,
    /// Everything the driver has done on its lines, oldest first.
    wire: Ghost<Seq<Signal>>,
}

impl<SckPin, DTPin, Delay> HX711<SckPin, DTPin, Delay> {
    /// The zero offset subtracted from raw samples.
    pub closed spec fn offset(&self) -> i32 {
        self.offset
    }

    /// The result of the last successful read.
    pub closed spec fn last_reading(&self) -> i32 {
        self.last_reading
    }

    /// The gain mode that the next read selects.
    pub closed spec fn gain_mode(&self) -> GainMode {
        self.gain_mode
    }

    /// Everything the driver has done on its lines, oldest first.
    pub closed spec fn wire(&self) -> Seq<Signal> {
        self.wire@
    }
}

impl<SckPin: DigitalOutput, DTPin: DigitalInput, Delay: MicroDelay> HX711<SckPin, DTPin, Delay> {
    /// Takes ownership of the lines and the delay and drives the clock low.
    /// The driver starts with offset 0 and gain mode `A64`.
    pub fn new(sck_pin: SckPin, dt_pin: DTPin, delay: Delay) -> (r: Self)
        ensures
            r.wire() == seq![Signal::ClockLow],
            r.offset() == 0,
            r.last_reading() == 0,
            r.gain_mode() == GainMode::A64,
    {
        let mut sck_pin = sck_pin;
        sck_pin.set_low();
        let ghost start = seq![Signal::ClockLow];
        HX711 {
            sck_pin,
            dt_pin,
            delay,
            last_reading: 0,
            gain_mode: GainMode::A64,
            offset: 0,
            wire: Ghost(start),
        }
    }

    /// Returns true when the chip has a conversion ready: the data line reads low.
    pub fn is_ready(&mut self) -> (ready: bool)
        ensures
            final(self).wire() == old(self).wire().push(Signal::DataLow(ready)),
            final(self).offset() == old(self).offset(),
            final(self).last_reading() == old(self).last_reading(),
            final(self).gain_mode() == old(self).gain_mode(),
    {
        let low = self.dt_pin.is_low();
        self.wire = Ghost(self.wire@.push(Signal::DataLow(low)));
        low
    }

    /// Clocks out one data bit and returns it.
    fn read_hx711_bit(&mut self) -> (bit: bool)
        ensures
            final(self).wire() == old(self).wire() + data_pulse(bit),
            final(self).offset() == old(self).offset(),
            final(self).last_reading() == old(self).last_reading(),
            final(self).gain_mode() == old(self).gain_mode(),
    {
        self.sck_pin.set_high();
        self.delay.delay_us(HX711_DELAY_TIME_US);
        let low = self.dt_pin.is_low();
        self.sck_pin.set_low();
        self.delay.delay_us(HX711_DELAY_TIME_US);
        let ghost pulse = data_pulse(!low);
        self.wire = Ghost(self.wire@ + pulse);
        !low
    }

    /// Emits one clock pulse that carries no data. Its only purpose is to be
    /// counted by the chip for the gain selection, so it must not be left out.
    fn toggle_sck_bit(&mut self)
        ensures
            final(self).wire() == old(self).wire() + control_pulse(),
            final(self).offset() == old(self).offset(),
            final(self).last_reading() == old(self).last_reading(),
            final(self).gain_mode() == old(self).gain_mode(),
    {
        self.sck_pin.set_high();
        self.delay.delay_us(HX711_DELAY_TIME_US);
        self.sck_pin.set_low();
        self.delay.delay_us(HX711_DELAY_TIME_US);
        let ghost pulse = control_pulse();
        self.wire = Ghost(self.wire@ + pulse);
    }

    /// Clocks in the 24 data bits, most significant first, then emits the
    /// pulses that select the configured gain for the next conversion.
    /// Returns the 24-bit word.
    fn shift_in_frame(&mut self) -> (raw: u32)
        ensures
            raw < 0x100_0000,
            shifts_word(old(self).wire(), final(self).wire(), old(self).gain_mode(), raw as nat),
            final(self).offset() == old(self).offset(),
            final(self).last_reading() == old(self).last_reading(),
            final(self).gain_mode() == old(self).gain_mode(),
    {
        let ghost start = self.wire@;
        let ghost mut bits: Seq<bool> = Seq::empty();
        let mut value: u32 = 0;
        let mut i: u32 = 0;
        while i < DATA_BITS
            invariant
                i <= DATA_BITS,
                bits.len() == i,
                value == bits_value(bits),
                value < pow2_of(i),
                self.wire@ == start + data_pulses(bits),
                self.offset == old(self).offset,
                self.last_reading == old(self).last_reading,
                self.gain_mode == old(self).gain_mode,
            decreases DATA_BITS - i,
        {
            let bit = self.read_hx711_bit();
            proof {
                lemma_pow2_step(i);
                assert(bits.push(bit).drop_last() =~= bits);
                assert((value << 1u32) | (bit as u32) == 2 * value + (bit as u32)) by (bit_vector)
                    requires
                        value < 0x80_0000,
                ;
                assert(data_pulses(bits.push(bit)) == data_pulses(bits) + data_pulse(bit));
                assert(self.wire@ =~= start + data_pulses(bits.push(bit)));
                bits = bits.push(bit);
            }
            value = (value << 1u32) | (bit as u32);
            i = i + 1;
        }
        proof {
            lemma_pow2_step(23);
        }
        let ghost data = self.wire@;
        let pulses = self.gain_mode.pulse_count();
        let mut k: u8 = 0;
        while k < pulses
            invariant
                k <= pulses,
                pulses == self.gain_mode.pulses(),
                self.wire@ == data + control_pulses(k as nat),
                self.offset == old(self).offset,
                self.last_reading == old(self).last_reading,
                self.gain_mode == old(self).gain_mode,
            decreases pulses - k,
        {
            self.toggle_sck_bit();
            proof {
                assert(control_pulses((k + 1) as nat) == control_pulses(k as nat) + control_pulse());
                assert(self.wire@ =~= data + control_pulses((k + 1) as nat));
            }
            k = k + 1;
        }
        proof {
            assert(self.wire@ =~= start + read_frame(bits, self.gain_mode));
        }
        value
    }

    /// Relies on `critical_section::with`: it runs the closure once, between
    /// acquiring and releasing the critical section, and returns the
    /// closure's result.
    #[verifier::external_body]
    fn shift_in_frame_atomically(&mut self) -> (raw: u32)
        ensures
            raw < 0x100_0000,
            shifts_word(old(self).wire(), final(self).wire(), old(self).gain_mode(), raw as nat),
            final(self).offset() == old(self).offset(),
            final(self).last_reading() == old(self).last_reading(),
            final(self).gain_mode() == old(self).gain_mode(),
    {
        critical_section::with(|_| self.shift_in_frame())
    }

    /// Reads one raw sample: the frame is clocked inside a critical section,
    /// so that no other context can stretch a clock pulse, and the word is
    /// sign-extended and clamped to the chip's range.
    fn read_bits(&mut self) -> (r: i32)
        ensures
            HX711_MINIMUM <= r <= HX711_MAXIMUM,
            shifts_sample(old(self).wire(), final(self).wire(), old(self).gain_mode(), r as int),
            final(self).offset() == old(self).offset(),
            final(self).last_reading() == old(self).last_reading(),
            final(self).gain_mode() == old(self).gain_mode(),
    {
        let raw = self.shift_in_frame_atomically();
        let signed = decode_sample(raw);
        proof {
            let bits = choose|bits: Seq<bool>|
                bits.len() == 24 && bits_value(bits) == raw && self.wire@ == old(self).wire@
                    + #[trigger] read_frame(bits, self.gain_mode);
            assert(self.wire@ == old(self).wire@ + read_frame(bits, self.gain_mode));
        }
        signed
    }

    /// Reads the next sample and returns it minus the offset, which is also
    /// kept as the last reading. Fails, touching nothing but the readiness
    /// check, when the chip has no conversion ready.
    pub fn read(&mut self) -> (r: Result<i32, NotReadyError>)
        requires
            offset_in_range(old(self).offset() as int),
        ensures
            match r {
                Ok(v) => {
                    &&& shifts_sample(
                        old(self).wire().push(Signal::DataLow(true)),
                        final(self).wire(),
                        old(self).gain_mode(),
                        v + old(self).offset(),
                    )
                    &&& final(self).last_reading() == v
                },
                Err(_) => {
                    &&& final(self).wire() == old(self).wire().push(Signal::DataLow(false))
                    &&& final(self).last_reading() == old(self).last_reading()
                },
            },
            final(self).offset() == old(self).offset(),
            final(self).gain_mode() == old(self).gain_mode(),
    {
        if !self.is_ready() {
            return Err(NotReadyError);
        }
        let signed = self.read_bits();
        self.last_reading = signed - self.offset;
        Ok(self.last_reading)
    }

    /// One readiness poll of a tare: returns whether the chip has a
    /// conversion ready and, when it has not, waits before the next poll.
    pub fn tare_poll(&mut self) -> (ready: bool)
        ensures
            final(self).wire() == if ready {
                old(self).wire().push(Signal::DataLow(true))
            } else {
                old(self).wire().push(Signal::DataLow(false)).push(
                    Signal::Wait(HX711_TARE_DELAY_TIME_US),
                )
            },
            final(self).offset() == old(self).offset(),
            final(self).last_reading() == old(self).last_reading(),
            final(self).gain_mode() == old(self).gain_mode(),
    {
        let ready = self.is_ready();
        if !ready {
            self.delay.delay_us(HX711_TARE_DELAY_TIME_US);
            self.wire = Ghost(self.wire@.push(Signal::Wait(HX711_TARE_DELAY_TIME_US)));
        }
        ready
    }

    /// One sample of a tare, taken once a poll has found the chip ready: reads
    /// a raw sample, that is without the offset, adds it to `average`, and
    /// waits for the chip to complete a new conversion.
    pub fn tare_sample(&mut self, average: &mut TareAverage)
        requires
            old(average).wf(),
            old(average).samples().len() < old(average).wanted(),
        ensures
            final(average).wf(),
            final(average).wanted() == old(average).wanted(),
            final(average).samples() == old(average).samples().push(final(average).samples().last()),
            shifts_sample(
                old(self).wire(),
                final(self).wire().drop_last(),
                old(self).gain_mode(),
                final(average).samples().last() as int,
            ),
            final(self).wire().last() == Signal::Wait(HX711_TARE_SLEEP_TIME_US),
            subscription(final(self).wire()) == subscription(old(self).wire()),
            final(self).offset() == old(self).offset(),
            final(self).last_reading() == old(self).last_reading(),
            final(self).gain_mode() == old(self).gain_mode(),
    {
        let sample = self.read_bits();
        let ghost read = self.wire@;
        self.delay.delay_us(HX711_TARE_SLEEP_TIME_US);
        self.wire = Ghost(self.wire@.push(Signal::Wait(HX711_TARE_SLEEP_TIME_US)));
        average.add(sample);
        proof {
            assert(self.wire@.drop_last() =~= read);
            let bits = choose|bits: Seq<bool>|
                bits.len() == 24 && word_value(bits_value(bits)) == sample && read == old(self).wire@
                    + #[trigger] read_frame(bits, self.gain_mode);
            lemma_read_frame_keeps(bits, self.gain_mode);
            lemma_subscription_append(old(self).wire@, read_frame(bits, self.gain_mode));
            assert(subscription(self.wire@) == subscription(self.wire@.drop_last()));
        }
    }

    /// Sets the gain mode; it takes effect with the conversion that follows
    /// the next read.
    pub fn set_gain_mode(&mut self, gain_mode: GainMode)
        ensures
            final(self).gain_mode() == gain_mode,
            final(self).offset() == old(self).offset(),
            final(self).last_reading() == old(self).last_reading(),
            final(self).wire() == old(self).wire(),
    {
        self.gain_mode = gain_mode;
    }

    /// The gain mode that the next read selects.
    pub fn get_gain_mode(&self) -> (g: GainMode)
        ensures
            g == self.gain_mode(),
    {
        self.gain_mode
    }

    /// The zero offset subtracted from raw samples.
    pub fn get_offset(&self) -> (o: i32)
        ensures
            o == self.offset(),
    {
        self.offset
    }

    /// Sets the zero offset.
    pub fn set_offset(&mut self, offset: i32)
        ensures
            final(self).offset() == offset,
            final(self).gain_mode() == old(self).gain_mode(),
            final(self).last_reading() == old(self).last_reading(),
            final(self).wire() == old(self).wire(),
    {
        self.offset = offset;
    }
}

/// 2 to the power `i`, for the bit counts of a data word.
spec fn pow2_of(i: u32) -> int
    decreases i,
{
    if i == 0 {
        1
    } else {
        2 * pow2_of((i - 1) as u32)
    }
}

proof fn lemma_pow2_step(i: u32)
    requires
        i < 24,
    ensures
        0 < pow2_of(i) <= 0x80_0000,
        pow2_of((i + 1) as u32) == 2 * pow2_of(i),
    decreases 23 - i,
{
    if i == 23 {
        reveal_with_fuel(pow2_of, 24);
    } else {
        lemma_pow2_step((i + 1) as u32);
    }
}

} // verus!
