//! A time-varying audio filter driven by Conway's Game of Life.
//!
//! The automaton runs on a square toroidal board ([`board`], [`grid`],
//! [`life`]); each generation becomes an impulse response ([`impulse`]) that
//! a background thread ([`driver`], [`gol`]) hands, as a spectral kernel,
//! to the audio thread through a lock-free queue ([`channel`]). The block
//! convolution's sizes are in [`layout`].

pub mod board;
pub mod channel;
pub mod driver;
pub mod gol;
pub mod grid;
pub mod impulse;
pub mod layout;
pub mod life;
