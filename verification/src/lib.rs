//! Fletcher-64 checksums over byte and text input.
//!
//! The checksum keeps two running sums over a sequence of 32-bit elements:
//! the first sum accumulates the elements, the second accumulates the
//! running value of the first. The sums are reduced modulo `0xffff_ffff`
//! after every block of [`model::BLOCK_LEN`] elements and packed into a
//! single 64-bit value, second sum in the high half, first sum in the low
//! half.

pub mod engine;
pub mod lemmas;
pub mod model;

pub use engine::fletcher_checksum;
pub use engine::fletcher_checksum_bytes;
pub use engine::fletcher_checksum_str;
