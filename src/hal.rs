//! The hardware capabilities the driver is written against: a clock output
//! line, a data input line, a microsecond delay and, for event-driven
//! readout, falling-edge notification on the data line.
//!
//! A pin error is a fault the driver cannot recover from, so implementations
//! either cannot fail or abort on failure.
use vstd::prelude::*;

verus! {

/// A push-pull digital output line.
pub trait DigitalOutput {
    /// Drives the line high.
    fn set_high(&mut self);

    /// Drives the line low.
    fn set_low(&mut self);
}

/// A digital input line.
pub trait DigitalInput {
    /// Returns true when the line currently reads low.
    fn is_low(&mut self) -> bool;
}

/// A blocking delay with microsecond resolution.
pub trait MicroDelay {
    /// Blocks for at least `us` microseconds.
    fn delay_us(&mut self, us: u32);
}

/// An input line that can raise an interrupt on a falling edge.
pub trait EdgeNotify: DigitalInput {
    /// Returns true when falling-edge interrupts are enabled on the line.
    fn is_listening(&mut self) -> bool;

    /// Enables the interrupt on falling edges.
    fn listen_falling_edge(&mut self);

    /// Disables the interrupt.
    fn unlisten(&mut self);

    /// Clears the pending-interrupt status of the line.
    fn clear_interrupt(&mut self);
}

} // verus!
