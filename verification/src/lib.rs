//! Core of a rendezvous service that crowdsources random numbers: requesters
//! block on `/get` until a provider's `/submit` is matched to them, while
//! observers watch the set of waiting requesters change.
//!
//! The library holds the verified logic: the request identifier codec, the
//! pending queue, the callback table, the wire-message codec, the submit and
//! get decision logic, the fan-in routing, and the observer view. The
//! surrounding HTTP server, the broker connections and the async plumbing are
//! unverified callers of these functions.

pub mod api;
pub mod banned;
pub mod bus;
pub mod bytes;
pub mod config;
pub mod counts;
pub mod escape;
pub mod fragments;
pub mod guid;
pub mod headers;
pub mod layers;
pub mod message;
pub mod middleware;
pub mod observer;
pub mod queue;
pub mod rendezvous;
pub mod table;
