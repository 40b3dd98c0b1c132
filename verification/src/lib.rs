//! A bidirectional codec between wire-format packets and structured,
//! versioned transactions.
//!
//! The decode direction stages an unbounded, externally supplied byte buffer
//! into a fixed-capacity buffer (truncating, never failing, on overlong
//! input), applies the packet's size metadata, and then decodes a versioned
//! transaction from the valid region of the buffer.  The encode direction
//! serialises a transaction into the deterministic binary wire format and
//! wraps it in a fresh packet whose metadata records the exact encoded
//! length.
//!
//! The wire format, the truncation and size-bookkeeping rules, and the
//! round-trip behaviour of the two directions are all stated as contracts
//! and proved.

pub mod model;
pub mod shortvec;
pub mod format;
pub mod roundtrip;
pub mod decode;
pub mod encode;
pub mod codec;
