//! Tunnel-endpoint control core of a mobile-network packet gateway.
//!
//! The crate assigns tunnel endpoint identifiers to inbound flows and keeps the
//! two-way association between a flow key, its identifier and the forwarding
//! resource registered for it.
//!
//! - [`teid`]: the identifiers and the order in which they are walked;
//! - [`allocator`]: the counter that proposes candidate identifiers, and the
//!   search for an unused one after a collision;
//! - [`store`]: the pool that holds the forwarding resources;
//! - [`table`]: the forward and backward maps and the protocol that writes
//!   both or neither;
//! - [`gtp`]: the controller that the gateway calls;
//! - [`history`]: what holds over any run of registrations;
//! - [`packet`]: plain models of the headers the gateway handles.
//!
//! A controller is used by one caller at a time. A reservation on its table is
//! therefore granted or refused at once, and a time budget has run out before
//! the reservations are granted only where it is zero; waiting for the
//! controller under a budget is the business of whoever shares it.
//!
//! A registration succeeds wherever the candidate identifier and the key are
//! free, the budget is not zero and fewer than [`store::ROOM`] entries are
//! live.
//!
//! # Panics
//!
//! Nothing in this crate panics but the slab under the resource store: a
//! registration panics when more threads are alive than the slab's
//! configuration allows for.

pub mod allocator;
pub mod gtp;
pub mod history;
pub mod packet;
pub mod store;
pub mod table;
pub mod teid;
