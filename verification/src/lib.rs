//! A DHCP server: the policies that requests fall under, the pools that addresses are leased from,
//! and the replies that are sent.
pub mod allocation;
pub mod answering;
pub mod applying;
pub mod clock;
pub mod config;
pub mod dhcppkt;
pub mod format;
pub mod guarantees;
pub mod handler;
pub mod ipv4;
pub mod leases;
pub mod lending;
pub mod matching;
pub mod options;
pub mod policy;
pub mod pool;
pub mod properties;
pub mod rendering;
pub mod request;
pub mod selection;
pub mod service;
pub mod sql;
pub mod subnet;
pub mod text;
pub mod views;
