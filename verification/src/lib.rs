//! Generation of constrained, semi-random CAN messages from a declarative
//! bit-layout description.

pub mod bits;
pub mod display;
pub mod frame;
pub mod msg_format;
pub mod msg_processor;
pub mod random;
pub mod session;
pub mod text;
pub mod transmit;
pub mod validate;
