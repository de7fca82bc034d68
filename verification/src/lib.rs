//! Tools for running computer processes locally or remotely via SSH.

pub mod block;
pub mod call;
pub mod computer;
pub mod connection;
pub mod error;
pub mod forwarder;
pub mod launch;
pub mod laws;
pub mod life;
pub mod line;
pub mod pipe;
pub mod process;
pub mod receive;
pub mod send;
pub mod session;
pub mod shell;
pub mod transfer;
