//! Audio: packets of samples, the buffer that they are played from, and the
//! synchronization with video. A sample is held as the bits of a
//! single-precision number.

pub mod capture;
pub mod playback;
pub mod sizes;
pub mod stream;
pub mod sync;
