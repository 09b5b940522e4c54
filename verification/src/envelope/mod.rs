//! The envelope that carries one side's session description and candidates:
//! a compact JSON object, written and read here byte by byte.
//!
//! The reader accepts exactly what the writer can produce. A member may be
//! absent; the members that are present stand in the writer's order.

pub mod grammar;
pub mod writer;
pub mod reader;
pub mod roundtrip;
pub mod exact;
