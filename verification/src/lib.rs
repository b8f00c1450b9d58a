//! Pulse-width infrared codec for an air-conditioner remote protocol.
//!
//! The decode path turns captured (mark, space) pulse pairs into logical
//! bits, packs the bits into bytes, and interprets the resulting frame as a
//! semantic command.  The encode path builds the pulse-pair train for a
//! command byte triple.  Both paths share one configurable timing table.

pub mod assemble;
pub mod command;
pub mod pipeline;
pub mod signal;
pub mod timing;
pub mod transmit;
