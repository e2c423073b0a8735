//! Core of a line-oriented multi-user chat service: name validation, line
//! framing, the membership registry, room events and their rendering, and the
//! per-connection session state machine.  Transport and scheduling live with
//! the caller; everything here is plain data in, plain data out.

pub mod events;
pub mod framer;
pub mod names;
pub mod primes;
pub mod registry;
pub mod session;

