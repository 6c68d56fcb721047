//! Rules of a bot that trades the spread between MEXC and Binance futures: what the
//! messages of the exchanges do to its state, what it knows of the spreads, and what it
//! shows. Everything here is proved; sockets, files and floating point are left to the
//! program around it.
pub mod binance;
pub mod config;
pub mod double;
pub mod feed;
pub mod json;
pub mod mexc;
pub mod naming;
pub mod proxy;
pub mod run;
pub mod scan;
pub mod session;
pub mod speedtest;
pub mod spread_tracker;
pub mod state;
pub mod table;
pub mod text;
pub mod web;
