//! Musical tuning: the tone and octave of every note, and its frequency as an exact ratio to
//! a reference frequency, in equal and Pythagorean temperament.

pub mod circle;
pub mod circle_of_fifths;
pub mod equal;
pub mod pitch;
pub mod powers;
pub mod pythag;
pub mod temperament;
