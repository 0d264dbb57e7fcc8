//! The core of an X11 protocol client: one byte stream to the server is
//! turned into numbered requests, replies, errors and events.
//!
//! - [`xid`]: resource identifiers and the allocators that issue them.
//! - [`wire`]: integers as the wire carries them.
//! - [`packet`]: the buffer that packets are built and received in.
//! - [`request`]: what a request tells about itself, and its frame.
//! - [`event`], [`error`]: what the server sends back.
//! - [`variant`]: the state between calls, held in single-threaded or in
//!   thread-safe collections.
//! - [`display`]: sending requests, waiting for messages and routing them.
//! - [`transfer`]: moving a packet over a stream that takes a part at a
//!   time.
//!
//! Every function states in its contract what it returns and changes; the
//! contracts speak of plain values, above all of
//! [`variant::VariantState`] and [`display::Traffic`].

pub mod display;
pub mod error;
pub mod event;
pub mod packet;
pub mod request;
pub mod transfer;
pub mod variant;
pub mod wire;
pub mod xid;
