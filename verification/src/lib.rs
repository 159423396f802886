//! Host-side protocol and configuration logic for driving Klipper-style
//! printer MCUs: variable-length integers, CRC-16 framing, command
//! dictionaries, the Elegoo 0xA55A bootloader protocol, G-code line parsing
//! and pin strings.
pub mod error;
pub mod reader;
pub mod vlq;
pub mod crc;
pub mod message;
pub mod strutil;
pub mod commands;
pub mod command;
pub mod dictionary;
pub mod frame;
pub mod elegoo;
pub mod gcode;
pub mod config;
pub mod pin;
pub mod klipper;
pub mod gpio;
pub mod os_dummy;
pub mod os_linux;
pub mod runtime;
pub mod rpmsg;
pub mod binary;

