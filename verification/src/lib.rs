//! Verified core of a performance-counter collector.
//!
//! A counter is described by a [`PdhCounterPathElement`], turned into the
//! canonical wide-character counter path by [`path::pdh_make_counter_path`],
//! bound to a native query, and polled; each poll decodes a raw formatted
//! sample into a typed [`value::PdhValue`].  The native query subsystem is an
//! external collaborator: this crate holds every decision made around it —
//! path construction, the bind bookkeeping, the polling state machine, the
//! decoding — while the embedding application performs the native calls and
//! feeds their outcomes back in as plain values.

pub mod controller;
pub mod element;
pub mod error;
pub mod path;
pub mod value;
pub mod wide;

pub use controller::PdhCollectionItem;
pub use controller::PdhController;
pub use controller::PdhControllerIntoIter;
pub use controller::PdhControllerIterator;
pub use controller::PdhPollReply;
pub use controller::PdhPollRequest;
pub use element::PdhCounterPathElement;
pub use element::PdhCounterPathElementOptions;
pub use error::PdhCollectError;
pub use path::pdh_make_counter_path;
pub use value::PdhCollectValue;
pub use value::PdhRawCounterValue;
pub use value::PdhValue;
