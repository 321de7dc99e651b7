//! Sans-I/O core of a QUIC transport engine: primitive wire codecs,
//! stream state machines, flow control, loss-recovery bookkeeping and the
//! configuration surface. The engine performs no socket I/O of its own;
//! an asynchronous adapter drives it from the outside.

pub mod config;
pub mod connection;
pub mod flow;
pub mod frame;
pub mod packet_number;
pub mod perf;
pub mod recv;
pub mod send_stream;
pub mod stream_id;
pub mod streams;
pub mod varint;
