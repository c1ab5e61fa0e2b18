use std::cell::RefCell;
use std::collections::VecDeque;
use std::rc::Rc;

use loadcell::hal::{DigitalInput, DigitalOutput, EdgeNotify, MicroDelay};
use loadcell::hx711::{GainMode, HX711};
use loadcell::tare::TareAverage;

/// A simulated chip: the answers the data line gives, in order, and a count
/// of what the driver did to the lines.
#[derive(Default)]
struct Chip {
    low_answers: VecDeque<bool>,
    clock_highs: usize,
    clock_lows: usize,
    delays: Vec<u32>,
    listening: bool,
    listen_calls: usize,
    unlisten_calls: usize,
    clears: usize,
}

type Shared = Rc<RefCell<Chip>>;

struct Sck(Shared);
struct Dt(Shared);
struct Wait(Shared);

impl DigitalOutput for Sck {
    fn set_high(&mut self) {
        self.0.borrow_mut().clock_highs += 1;
    }

    fn set_low(&mut self) {
        self.0.borrow_mut().clock_lows += 1;
    }
}

impl DigitalInput for Dt {
    fn is_low(&mut self) -> bool {
        // an idle data line reads high
        self.0.borrow_mut().low_answers.pop_front().unwrap_or(false)
    }
}

impl EdgeNotify for Dt {
    fn is_listening(&mut self) -> bool {
        self.0.borrow().listening
    }

    fn listen_falling_edge(&mut self) {
        let mut chip = self.0.borrow_mut();
        chip.listening = true;
        chip.listen_calls += 1;
    }

    fn unlisten(&mut self) {
        let mut chip = self.0.borrow_mut();
        chip.listening = false;
        chip.unlisten_calls += 1;
    }

    fn clear_interrupt(&mut self) {
        self.0.borrow_mut().clears += 1;
    }
}

impl MicroDelay for Wait {
    fn delay_us(&mut self, us: u32) {
        self.0.borrow_mut().delays.push(us);
    }
}

/// The data line answers for one conversion: ready, then 24 bits, most
/// significant first, a one bit being a line that does not read low.
fn conversion(raw: u32) -> Vec<bool> {
    let mut answers = vec![true];
    for i in (0..24).rev() {
        answers.push((raw >> i) & 1 == 0);
    }
    answers
}

fn word_of(sample: i32) -> u32 {
    (sample as u32) & 0x00FF_FFFF
}

fn driver(answers: Vec<bool>) -> (HX711<Sck, Dt, Wait>, Shared) {
    let chip: Shared = Rc::new(RefCell::new(Chip::default()));
    chip.borrow_mut().low_answers = answers.into_iter().collect();
    let hx = HX711::new(Sck(chip.clone()), Dt(chip.clone()), Wait(chip.clone()));
    (hx, chip)
}

/// Runs a tare the way a polling caller does: poll until ready, then sample.
fn run_tare(hx: &mut HX711<Sck, Dt, Wait>, num_samples: usize) {
    let mut average = TareAverage::new(num_samples);
    while !average.is_complete() {
        while !hx.tare_poll() {}
        hx.tare_sample(&mut average);
    }
    hx.set_offset(average.offset());
}

#[test]
fn new_starts_with_clock_low_and_defaults() {
    let (hx, chip) = driver(vec![]);
    assert_eq!(chip.borrow().clock_lows, 1);
    assert_eq!(chip.borrow().clock_highs, 0);
    assert_eq!(hx.get_offset(), 0);
    assert_eq!(hx.get_gain_mode(), GainMode::A64);
}

#[test]
fn is_ready_follows_the_data_line() {
    let (mut hx, _chip) = driver(vec![true, false]);
    assert!(hx.is_ready());
    assert!(!hx.is_ready());
}

#[test]
fn read_of_max_word() {
    let (mut hx, _chip) = driver(conversion(0x7F_FFFF));
    assert_eq!(hx.read().unwrap(), 8_388_607);
}

#[test]
fn read_of_sign_bit_word_is_minimum() {
    let (mut hx, _chip) = driver(conversion(0x80_0000));
    assert_eq!(hx.read().unwrap(), -8_388_608);
}

#[test]
fn read_of_one() {
    let (mut hx, _chip) = driver(conversion(0x00_0001));
    assert_eq!(hx.read().unwrap(), 1);
}

#[test]
fn read_of_all_ones_is_minus_one() {
    let (mut hx, _chip) = driver(conversion(0xFF_FFFF));
    assert_eq!(hx.read().unwrap(), -1);
}

#[test]
fn read_subtracts_offset() {
    let (mut hx, _chip) = driver(conversion(150));
    hx.set_offset(100);
    assert_eq!(hx.read().unwrap(), 50);
    assert_eq!(hx.get_offset(), 100);
}

#[test]
fn read_not_ready_changes_nothing() {
    let (mut hx, chip) = driver(vec![false]);
    hx.set_offset(7);
    assert!(hx.read().is_err());
    assert_eq!(hx.get_offset(), 7);
    assert_eq!(chip.borrow().clock_highs, 0);
    assert!(chip.borrow().delays.is_empty());
}

#[test]
fn read_not_ready_then_ready() {
    let mut answers = vec![false];
    answers.extend(conversion(42));
    let (mut hx, _chip) = driver(answers);
    assert!(hx.read().is_err());
    assert_eq!(hx.read().unwrap(), 42);
}

fn clock_pulses_of_read(gain: GainMode) -> usize {
    let (mut hx, chip) = driver(conversion(5));
    hx.set_gain_mode(gain);
    let before = chip.borrow().clock_highs;
    assert_eq!(hx.read().unwrap(), 5);
    let after = chip.borrow().clock_highs;
    assert_eq!(chip.borrow().clock_lows, 1 + after);
    after - before
}

#[test]
fn gain_a128_adds_one_pulse() {
    assert_eq!(clock_pulses_of_read(GainMode::A128), 25);
}

#[test]
fn gain_b32_adds_two_pulses() {
    assert_eq!(clock_pulses_of_read(GainMode::B32), 26);
}

#[test]
fn gain_a64_adds_three_pulses() {
    assert_eq!(clock_pulses_of_read(GainMode::A64), 27);
}

#[test]
fn pulse_counts_of_gain_modes() {
    assert_eq!(GainMode::A128.pulse_count(), 1);
    assert_eq!(GainMode::B32.pulse_count(), 2);
    assert_eq!(GainMode::A64.pulse_count(), 3);
}

#[test]
fn clock_pulses_are_one_microsecond() {
    let (mut hx, chip) = driver(conversion(3));
    hx.set_gain_mode(GainMode::A128);
    hx.read().unwrap();
    let delays = chip.borrow().delays.clone();
    assert_eq!(delays.len(), 2 * 25);
    assert!(delays.iter().all(|d| *d == 1));
}

fn tare_answers(samples: &[i32]) -> Vec<bool> {
    let mut answers = Vec::new();
    for s in samples {
        answers.extend(conversion(word_of(*s)));
    }
    answers
}

#[test]
fn tare_of_identical_samples_is_exact() {
    let (mut hx, _chip) = driver(tare_answers(&[1234; 16]));
    run_tare(&mut hx, 16);
    assert_eq!(hx.get_offset(), 1234);
}

#[test]
fn tare_of_identical_negative_samples_is_exact() {
    let (mut hx, _chip) = driver(tare_answers(&[-777; 5]));
    run_tare(&mut hx, 5);
    assert_eq!(hx.get_offset(), -777);
}

#[test]
fn tare_truncates_the_mean() {
    let (mut hx, _chip) = driver(tare_answers(&[1, 2, 4]));
    run_tare(&mut hx, 3);
    assert_eq!(hx.get_offset(), 2);
}

#[test]
fn tare_truncates_negative_mean_toward_zero() {
    let (mut hx, _chip) = driver(tare_answers(&[-1, -2]));
    run_tare(&mut hx, 2);
    assert_eq!(hx.get_offset(), -1);
}

#[test]
fn tare_of_extreme_samples() {
    let (mut hx, _chip) = driver(tare_answers(&[8_388_607, -8_388_608, -8_388_608]));
    run_tare(&mut hx, 3);
    assert_eq!(hx.get_offset(), -2_796_203);
}

#[test]
fn tare_of_no_samples_is_zero() {
    let (mut hx, chip) = driver(vec![]);
    hx.set_offset(55);
    run_tare(&mut hx, 0);
    assert_eq!(hx.get_offset(), 0);
    assert_eq!(chip.borrow().clock_highs, 0);
}

#[test]
fn tare_waits_for_readiness_and_settles() {
    let mut answers = vec![false, false];
    answers.extend(conversion(10));
    let (mut hx, chip) = driver(answers);
    run_tare(&mut hx, 1);
    assert_eq!(hx.get_offset(), 10);
    let delays = chip.borrow().delays.clone();
    assert_eq!(delays.iter().filter(|d| **d == 5000).count(), 2);
    assert_eq!(delays.last(), Some(&10000));
}

#[test]
fn tare_then_read_is_zeroed() {
    let mut answers = tare_answers(&[300, 300]);
    answers.extend(conversion(310));
    let (mut hx, _chip) = driver(answers);
    run_tare(&mut hx, 2);
    assert_eq!(hx.read().unwrap(), 10);
}

fn tare_sync(hx: &mut HX711<Sck, Dt, Wait>, num_samples: usize) {
    let was_listening = hx.suspend_interrupt();
    run_tare(hx, num_samples);
    hx.resume_interrupt(was_listening);
}

#[test]
fn tare_sync_keeps_interrupts_enabled() {
    let (mut hx, chip) = driver(tare_answers(&[20, 22]));
    hx.enable_interrupt();
    tare_sync(&mut hx, 2);
    assert!(chip.borrow().listening);
    assert_eq!(chip.borrow().unlisten_calls, 1);
    assert_eq!(chip.borrow().listen_calls, 2);
    assert_eq!(hx.get_offset(), 21);
}

#[test]
fn tare_sync_keeps_interrupts_disabled() {
    let (mut hx, chip) = driver(tare_answers(&[20, 22]));
    tare_sync(&mut hx, 2);
    assert!(!chip.borrow().listening);
    assert_eq!(chip.borrow().listen_calls, 0);
    assert_eq!(hx.get_offset(), 21);
}

#[test]
fn disable_interrupt_unlistens() {
    let (mut hx, chip) = driver(vec![]);
    hx.enable_interrupt();
    hx.disable_interrupt();
    assert!(!chip.borrow().listening);
}

#[test]
fn clear_interrupt_reads_nothing() {
    let (mut hx, chip) = driver(conversion(9));
    hx.clear_interrupt();
    assert_eq!(chip.borrow().clears, 1);
    assert_eq!(chip.borrow().clock_highs, 0);
    assert_eq!(chip.borrow().low_answers.len(), 25);
}

#[test]
fn interrupt_handler_reads_and_clears() {
    let (mut hx, chip) = driver(conversion(64));
    hx.set_offset(4);
    assert_eq!(hx.handle_interrupt().unwrap(), 60);
    assert_eq!(chip.borrow().clears, 1);
}

#[test]
fn interrupt_handler_clears_when_not_ready() {
    let (mut hx, chip) = driver(vec![false]);
    assert!(hx.handle_interrupt().is_err());
    assert_eq!(chip.borrow().clears, 1);
    assert_eq!(chip.borrow().clock_highs, 0);
}
