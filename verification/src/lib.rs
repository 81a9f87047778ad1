pub mod bidi_copy;
pub mod conf;
pub mod cycle;
pub mod endpoint;
pub mod handshake;
pub mod obfs;
pub mod plain;
pub mod pool;
pub mod probe;
pub mod rng;
pub mod tcp;
pub mod text;
pub mod timeout;
