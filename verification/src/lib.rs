//! Control-plane core of a secure overlay network node.
//!
//! The crate covers three areas:
//!
//! * the fixed request/response header protocol spoken between a node and
//!   its control client, framed as CBOR maps ([`api`] and [`cbor`]);
//! * the portal engine: portable protocol-typed addresses, alias registries
//!   for TCP inlets and outlets, and the lifecycle operations over them
//!   ([`addr`], [`registry`], [`portal`]);
//! * the session recovery engine that rebuilds a broken route within a
//!   bounded time budget ([`session`], [`recovery`]).
//!
//! All network operations (dialing a secure channel, starting or stopping a
//! bridge worker) are performed by a driver outside this crate; here they
//! appear as explicit actions emitted by, and events fed back into, verified
//! state machines ([`connection`], [`recovery`], [`space`]).

pub mod access;
pub mod addr;
pub mod api;
pub mod cbor;
pub mod connection;
pub mod portal;
pub mod recovery;
pub mod registry;
pub mod schema;
pub mod session;
pub mod space;
pub mod text;
