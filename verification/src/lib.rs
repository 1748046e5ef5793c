//! A module runtime for a replicated state machine, and the wasm module
//! built on it.
//!
//! The runtime sits between a consensus engine and the modules of an
//! application. It gives each module a namespace of its own in one
//! versioned key-value state ([`store`]), hands it a context that offers
//! exactly what the phase under way allows ([`context`]), meters what a
//! transaction does by the size of the data that it touches ([`gas`]),
//! and runs each message behind a checkpoint, so that a transaction that
//! fails leaves nothing behind ([`baseapp`]).
//!
//! The wasm module keeps uploaded code in its namespace ([`keeper`]),
//! reads its parameters from a subspace ([`params`]), takes its state at
//! genesis and gives it back ([`genesis`]), and answers to the
//! application through its handler ([`abci_handler`]). The engine that
//! holds and runs the code is a collaborator behind a trait ([`engine`]),
//! and so is the codec that writes the upload access of the parameters
//! ([`params`]); one codec that needs nothing but bytes comes with the
//! library ([`codec`]).
//!
//! A collaborator says of its own answers what it will, as a relation
//! that its trait carries, and the module states what it does over that
//! relation: what an engine, a codec or a handler leaves open stays open,
//! and all that the module adds is exact.
//!
//! What a function promises is stated over the mathematical value that
//! each type stands for: a store is a sequence of committed tables with
//! pending writes over them, a context is a store with a meter and
//! events, an address is its bytes.

pub mod abci_handler;
pub mod address;
pub mod baseapp;
pub mod bytes;
pub mod client;
pub mod codec;
pub mod coin;
pub mod context;
pub mod decimal;
pub mod endian;
pub mod engine;
pub mod error;
pub mod gas;
pub mod genesis;
pub mod keeper;
pub mod message;
pub mod pagination;
pub mod params;
pub mod store;
pub mod types;
pub mod wasmvm;
