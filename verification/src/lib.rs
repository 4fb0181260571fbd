//! Timekeeping and framebuffer core of a wrist-worn signal watch.
//!
//! The firmware runs on a Cortex-M microcontroller with a bank of 24-bit
//! real-time counters clocked by a 32 768 Hz low-frequency oscillator, and a
//! 240x240 RGB565 display fed over a serial bus by DMA.  This crate holds the
//! verified core of that firmware:
//!
//! * [`rtc`] -- a software model of one RTC register block together with the
//!   handle operations the scheduler performs on it (start, stop, compare
//!   programming, event arming, read-and-clear of event flags), and the proofs
//!   that compare events fire exactly once even across counter wrap-around.
//! * [`clock`] -- the multi-channel scheduler layered over N counters:
//!   blocking `delay`, one-shot `after` with a stored callback, race-free
//!   `cancel`, and the per-channel interrupt dispatch.
//! * [`gfx`] -- the RGB565 pixel packing and the DMA-friendly pixel buffer
//!   whose byte stream is bit-exact what the display controller expects.
//!
//! Memory-mapped register access, interrupt vectors, GPIO and the panic
//! transport are hardware collaborators outside this crate; the scheduler here
//! manipulates the register model, and its host-side clock edge (`tick`)
//! stands for the hardware counter increment.

pub mod clock;
pub mod gfx;
pub mod rtc;
