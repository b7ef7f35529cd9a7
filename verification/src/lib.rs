//! Core of a small TCP load balancer: the per-connection ring buffers that
//! carry bytes between a client and an upstream server, the round-robin
//! choice of upstream, the steps of the relay loop, and the conversion of a
//! parsed nginx-style configuration into the balancer's own configuration.
pub mod balancer;
pub mod config;
pub mod errors;
pub mod ioringbuffer;
mod modular;
pub mod nginx_config;
pub mod relay;
