//! Codec for the IEC 60870-5-104 telecontrol protocol.
//!
//! The crate turns bytes into application-layer frames and back. Every
//! executable function carries a contract over a mathematical model of the
//! wire format, and the laws that tie encoding and decoding together are
//! proved in [`laws`].
//!
//! From the outside in: [`frame`] finds a frame at the front of a buffer
//! and reads its control field ([`apci`]); an information frame carries an
//! ASDU ([`asdu`]), whose objects ([`object`]) are laid out as the row of
//! their type says ([`type_id`]), from payloads ([`payload`]), time tags
//! ([`time`]) and the small encodings of [`primitive`]. The field widths
//! that a link has agreed on come in a [`profile`]. [`stream`] decodes
//! from bytes that arrive in pieces, and [`hex`] reads frames that were
//! written down as text.

pub mod apci;
pub mod asdu;
pub mod error;
pub mod frame;
pub mod hex;
pub mod laws;
pub mod object;
pub mod payload;
pub mod primitive;
pub mod profile;
pub mod stream;
pub mod time;
pub mod type_id;
