//! Core of a market-data feed handler: a byte-level parser for the exchange's
//! subscription stream, a depth-bounded order book per instrument, and the
//! decisions of the connection, router and writer tasks.
//!
//! - [`parsing`]: the parser of the hot path, which reads trades and book
//!   messages straight from the bytes of a frame, and the general decoder for
//!   the administrative replies.
//! - [`orderbook_management`]: the book of one instrument.
//! - [`deribit`]: what the connection sends, how it takes a frame, how it
//!   moves from connecting to closed, and where replies are routed.
//! - [`shm_writer`]: what the writer publishes.
//! - [`decimal`]: exact decimal numbers. Prices and sizes are kept as the
//!   exchange writes them; narrowing them to machine floats is left to whoever
//!   publishes them.

pub mod config_global;
pub mod decimal;
pub mod deribit;
pub mod deribit_helper;
pub mod market_data_type;
pub mod orderbook_management;
pub mod parsing;
pub mod shm_writer;
