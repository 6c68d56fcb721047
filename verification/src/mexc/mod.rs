//! The MEXC side: the account feed and the order book feed.
pub mod ws_private;
pub mod ws_public;
