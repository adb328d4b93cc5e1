//! Flashing HiSilicon chips: firmware package parsing, the SEBOOT and YMODEM
//! protocols, and the decisions a flasher takes while talking to a device.
use vstd::prelude::*;

pub mod bytes;
pub mod cancel;
pub mod chip;
pub mod cli;
pub mod config;
pub mod connection;
pub mod crc;
pub mod device;
pub mod error;
pub mod firmware;
pub mod flasher;
pub mod fwpkg;
pub mod monitor;
pub mod port;
pub mod reconnect;
pub mod seboot;
pub mod shell;
pub mod selection;
pub mod text;
pub mod web_port;
pub mod ws63;
pub mod ymodem;

verus! {

} // verus!
