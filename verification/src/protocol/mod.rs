//! Wire format of the MSIP protocol.

pub mod header;
