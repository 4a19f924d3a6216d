//! Client-side logic of a Private Join and Compute (PJC) partner: the
//! byte buffers that travel between partner and company, their wire
//! encoding, the REST and gRPC routes, the order of the protocol's
//! requests and the choice of transport security when connecting.

pub mod buffer;
pub mod codec;
pub mod connect;
pub mod grpc;
pub mod messages;
pub mod rest;
pub mod session;
