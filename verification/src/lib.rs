//! The core of a blockchain light-client node: a cooperative task scheduler,
//! the bookkeeping of the peer-to-peer network service, and the driver that
//! keeps an in-memory snapshot of finalized chain state in step with the
//! block-verification engine.

pub mod bytes;
pub mod codec;
pub mod connection;
pub mod lists;
pub mod network;
pub mod peers;
pub mod relay;
pub mod requests;
pub mod scheduler;
pub mod slots;
pub mod storage;
pub mod sync;
