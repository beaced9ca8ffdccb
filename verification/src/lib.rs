//! Verified core of a supervisor for bunches of backend service processes:
//! the bunch state machine, socket and port planning, failure accounting,
//! rolling-update bookkeeping, the decisions of the bunch controller and the
//! rewriting of an NGINX upstream block.

pub mod state_machine;
pub mod text;
pub mod sockets;
pub mod connect_addr;
pub mod configuration;
pub mod message;
pub mod error;
pub mod service_bunch;
pub mod service_unit;
pub mod paths;
pub mod bunch_controller;
pub mod cli;
pub mod nginx;
pub mod ports;
