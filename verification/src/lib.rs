//! A minimal remote-procedure-call mechanism over datagrams: a request
//! envelope, a registry of named services, the listener's per-datagram
//! decisions and the client's fan-out to its recipients.
//!
//! The library decides and computes; binding sockets, receiving, sending and
//! threads belong to the program around it.

pub mod json;
pub mod envelope;
pub mod service;
pub mod transport;
pub mod server;
pub mod client;
pub mod laws;

pub use client::{ClientError, ClientView, Delivery, DeliveryView, SendError, UrpcClient};
pub use json::decode;
pub use envelope::{DecodeError, Envelope, Field, UrpcRequest};
pub use server::{LoopAction, RegistryError, RequestError, Turn, TurnError, UrpcServer};
pub use service::{DefaultUrpcService, ServiceError, UrpcService};
pub use transport::{TransportError, MAX_DATAGRAM_SIZE};
