//! Driver for the HX711 24-bit load-cell amplifier.
use vstd::prelude::*;

pub mod hal;
pub mod hx711;
pub mod sample;
pub mod tare;
pub mod wire;

verus! {

/// The generic load cell interface.
pub trait LoadCell {
    /// The offset used to zero the load cell.
    type Offset;

    /// The multiplier used for the scale sensitivity.
    type Scale;

    /// Returned when reading from the chip before it is ready.
    type NotReadyError;

    /// Reads the value from the load cell, minus the offset.
    fn read(&mut self) -> Result<i32, Self::NotReadyError>;

    /// Reads the value and applies the scale.
    fn read_scaled(&mut self) -> Result<Self::Scale, Self::NotReadyError>;

    /// Zeroes the load cell offset by averaging `num_samples` readings.
    fn tare(&mut self, num_samples: usize);

    /// The load cell offset.
    fn get_offset(&self) -> Self::Offset;

    /// Sets the load cell offset.
    fn set_offset(&mut self, offset: Self::Offset);

    /// Sets the scale, which calibrates the load cell.
    fn set_scale(&mut self, scale: Self::Scale);

    /// The scale.
    fn get_scale(&self) -> Self::Scale;
}

} // verus!
