pub mod buffers;
pub mod error;
pub mod text;
pub mod ticket;
pub mod tls_passenger;
pub mod http_passenger;
pub mod capture;
pub mod route;
pub mod connection;
pub mod flow;
pub mod frames;
pub mod stabling;
pub mod pool;
pub mod derive;
pub mod batcher;
pub mod error_mapper;
pub mod phase_order;
pub mod phase;
pub mod recorder;
pub mod laws;
