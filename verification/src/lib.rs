//! An in-process publish/subscribe pipeline that accumulates serialized
//! events per topic into bounded batches before handing them to a shared
//! downstream sink. A batch is flushed as soon as it reaches the size
//! threshold, and a non-empty buffer is never held open longer than the
//! batch timeout; an orderly shutdown drains every buffer before the sink
//! stops, so no accepted message is lost or duplicated.
//!
//! The batching state machines, the topic registry and the counting sink
//! live here with verified contracts; the asynchronous shell — actors,
//! mailboxes, real timers and signal handling — sits outside the library and
//! drives these decisions.
//!
//! Two unrelated exercises share the crate: a small rover command
//! interpreter and a holder type for owned-or-borrowed values.

use vstd::prelude::*;

pub mod batching;
pub mod registry;
pub mod rover;
pub mod sink;
pub mod sp;

verus! {

/// Errors surfaced by the publish/subscribe pipeline.
///
/// `SendFailed` is returned when a message is offered to an accumulator that
/// has already terminated. `SerializationError` is reserved for a failing
/// payload encoding (the stub encoding never fails, but the variant must be
/// representable). `ShutdownIncomplete` reports a final flush that could not
/// be confirmed within the bounded wait of an orderly shutdown.
#[derive(Debug, Clone, Copy, PartialEq, Eq, Structural)]
pub enum PubSubError {
    SendFailed,
    SerializationError,
    ShutdownIncomplete,
}

} // verus!
