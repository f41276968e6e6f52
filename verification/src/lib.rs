//! An inspector for captured network traffic: a decoder for capture
//! records, a list that keeps a chain through the items matching a filter,
//! and a controller that cuts a window out of the filtered list.

pub mod app;
pub mod chain;
pub mod clock;
pub mod endian;
pub mod filtable;
pub mod input_action;
pub mod l3data;
pub mod packet;
pub mod pcap;
pub mod read;
pub mod text;
