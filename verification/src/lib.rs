//! A verified debug-log transport that pushes short diagnostic messages out
//! over a half-duplex, DMA-driven UARTE transmitter.
//!
//! The transport accepts `(port, bytes)` write requests, splits them into
//! bounded packets, renders each packet (a two-byte header followed by the
//! payload) into a single fixed transmit buffer, and starts the hardware
//! transmitter — waiting for the previous transmission to finish before the
//! buffer is reused, so the wire sees whole packets in submission order.
//!
//! Framing follows the header-framed, multi-port protocol: every packet
//! carries a two-byte header (fixed key, port, payload length), and a
//! one-way initialization flag agrees with the enable register read-back, so
//! either test tells whether the peripheral is configured.
//!
//! The hardware register file is represented by an in-memory model
//! ([`uarte::Uarte`]): a value holding the task, event and configuration
//! fields the transport touches, together with the byte tape an attached
//! debug probe would observe on the wire. Every transport operation is a
//! verified function over that model; a hardware build substitutes volatile
//! register accesses for the model's plain fields.

pub mod chunking;
pub mod codec;
pub mod logger;
pub mod uarte;

pub use chunking::chunk_max;
pub use codec::{decode_header, encode_header};
pub use logger::{Logger, State};
pub use uarte::{baud_rate, baud_rate_supported};
