//! A ring buffer returning generational handles on insertion, so that
//! you can check if an item has been replaced since you got the handle.
//!
//! The storage is a simple vector not taking more space than a minimal
//! ring buffer: the generation of a slot is never stored, it is derived
//! from the position of the slot relative to the write cursor.
//!
//! - [`generational_buffer`] holds the buffer and its operations, each with
//!   its contract;
//! - [`handle`] holds the handles;
//! - [`model`] holds the mathematical model that the contracts speak of;
//! - [`laws`] holds what is proved of every buffer over that model.

mod arith;
pub mod generational_buffer;
pub mod handle;
pub mod laws;
pub mod model;

pub use generational_buffer::GenerationalBuffer;
pub use handle::{Handle, HandleView};
pub use model::BufferView;
