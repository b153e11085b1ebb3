//! Messages and bookkeeping of the Open Pipe protocol.
pub mod alarm_data;
pub mod alarm_server;
pub mod connection;
pub mod lines;
pub mod route;
pub mod tag_server;
