//! Event-driven readout: an interrupt on the falling edge of the data line
//! tells when the chip has a conversion ready, instead of polling.
use vstd::prelude::*;

use crate::hal::{DigitalOutput, EdgeNotify, MicroDelay};
use crate::hx711::{offset_in_range, NotReadyError, HX711};
use crate::wire::{
    keeps_subscription, lemma_subscription_append, shifts_sample, subscription, Signal,
};
use crate::LoadCell;

verus! {

/// An extension of `LoadCell` for a data line that can raise interrupts.
pub trait Interrupt: LoadCell {
    /// Tares synchronously with interrupts disabled, and enables them again
    /// afterwards if they were enabled before.
    fn tare_sync(&mut self, num_samples: usize);

    /// Disables the interrupt on the data line.
    fn disable_interrupt(&mut self);

    /// Enables the interrupt on falling edges of the data line.
    fn enable_interrupt(&mut self);

    /// Clears the pending-interrupt status of the data line.
    fn clear_interrupt(&mut self);
}

/// What suspending interrupts does on the lines: it asks whether they are
/// enabled, then disables them.
pub open spec fn suspend_signals(was_listening: bool) -> Seq<Signal> {
    seq![Signal::Listening(was_listening), Signal::Unlisten]
}

/// What resuming interrupts does on the lines: it enables them again only if
/// they were enabled when suspended.
pub open spec fn resume_signals(was_listening: bool) -> Seq<Signal> {
    if was_listening {
        seq![Signal::Listen]
    } else {
        Seq::empty()
    }
}

/// Suspending interrupts, running a tare that neither enables nor disables
/// them, then resuming, leaves interrupts enabled exactly when they were
/// enabled before.
pub proof fn lemma_tare_sync_restores_interrupts(
    before: Seq<Signal>,
    was_listening: bool,
    tare: Seq<Signal>,
)
    requires
        keeps_subscription(tare),
    ensures
        subscription(before + suspend_signals(was_listening) + tare + resume_signals(was_listening))
            == Some(was_listening),
{
    let suspended = before + suspend_signals(was_listening);
    assert(suspended.drop_last() =~= before.push(Signal::Listening(was_listening)));
    assert(subscription(suspended) == Some(false));
    lemma_subscription_append(suspended, tare);
    let t = suspended + tare;
    if was_listening {
        assert((t + resume_signals(was_listening)).last() == Signal::Listen);
    } else {
        assert(t + resume_signals(was_listening) =~= t);
    }
}

impl<SckPin: DigitalOutput, DTPin: EdgeNotify, Delay: MicroDelay> HX711<SckPin, DTPin, Delay> {
    /// Enables the interrupt on falling edges of the data line.
    pub fn enable_interrupt(&mut self)
        ensures
            final(self).wire() == old(self).wire().push(Signal::Listen),
            final(self).offset() == old(self).offset(),
            final(self).last_reading() == old(self).last_reading(),
            final(self).gain_mode() == old(self).gain_mode(),
    {
        self.dt_pin.listen_falling_edge();
        self.wire = Ghost(self.wire@.push(Signal::Listen));
    }

    /// Disables the interrupt on the data line.
    pub fn disable_interrupt(&mut self)
        ensures
            final(self).wire() == old(self).wire().push(Signal::Unlisten),
            final(self).offset() == old(self).offset(),
            final(self).last_reading() == old(self).last_reading(),
            final(self).gain_mode() == old(self).gain_mode(),
    {
        self.dt_pin.unlisten();
        self.wire = Ghost(self.wire@.push(Signal::Unlisten));
    }

    /// Clears the pending-interrupt status of the data line, without reading.
    pub fn clear_interrupt(&mut self)
        ensures
            final(self).wire() == old(self).wire().push(Signal::ClearInterrupt),
            final(self).offset() == old(self).offset(),
            final(self).last_reading() == old(self).last_reading(),
            final(self).gain_mode() == old(self).gain_mode(),
    {
        self.dt_pin.clear_interrupt();
        self.wire = Ghost(self.wire@.push(Signal::ClearInterrupt));
    }

    /// Disables interrupts for a synchronous tare and returns whether they
    /// were enabled.
    pub fn suspend_interrupt(&mut self) -> (was_listening: bool)
        ensures
            final(self).wire() == old(self).wire() + suspend_signals(was_listening),
            subscription(final(self).wire()) == Some(false),
            final(self).offset() == old(self).offset(),
            final(self).last_reading() == old(self).last_reading(),
            final(self).gain_mode() == old(self).gain_mode(),
    {
        let was_listening = self.dt_pin.is_listening();
        self.wire = Ghost(self.wire@.push(Signal::Listening(was_listening)));
        self.disable_interrupt();
        proof {
            assert(self.wire@ =~= old(self).wire@ + suspend_signals(was_listening));
        }
        was_listening
    }

    /// Ends a synchronous tare: enables interrupts again if they were enabled
    /// when it was suspended.
    pub fn resume_interrupt(&mut self, was_listening: bool)
        ensures
            final(self).wire() == old(self).wire() + resume_signals(was_listening),
            was_listening ==> subscription(final(self).wire()) == Some(true),
            final(self).offset() == old(self).offset(),
            final(self).last_reading() == old(self).last_reading(),
            final(self).gain_mode() == old(self).gain_mode(),
    {
        if was_listening {
            self.enable_interrupt();
        }
        proof {
            assert(self.wire@ =~= old(self).wire@ + resume_signals(was_listening));
        }
    }

    /// The work of the interrupt handler: reads the conversion if the chip
    /// has one ready, as `read` does, then clears the pending-interrupt status
    /// whatever the read gave, so that the next edge is seen.
    pub fn handle_interrupt(&mut self) -> (r: Result<i32, NotReadyError>)
        requires
            offset_in_range(old(self).offset() as int),
        ensures
            final(self).wire().last() == Signal::ClearInterrupt,
            r is Err ==> final(self).wire() == old(self).wire().push(Signal::DataLow(false)).push(
                Signal::ClearInterrupt,
            ),
            r is Ok ==> shifts_sample(
                old(self).wire().push(Signal::DataLow(true)),
                final(self).wire().drop_last(),
                old(self).gain_mode(),
                r->Ok_0 + old(self).offset(),
            ),
            r is Ok ==> final(self).last_reading() == r->Ok_0,
            r is Err ==> final(self).last_reading() == old(self).last_reading(),
            final(self).offset() == old(self).offset(),
            final(self).gain_mode() == old(self).gain_mode(),
    {
        let r = self.read();
        let ghost read = self.wire@;
        self.clear_interrupt();
        proof {
            assert(self.wire@.drop_last() =~= read);
        }
        r
    }
}

} // verus!
