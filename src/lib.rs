//! Host-side library for an addressable LED-strip controller that speaks a
//! framed ASCII protocol over a serial link: colors, checksums, the command
//! codec, the firmware-version policy and the serial read discipline.

pub mod color;
pub mod checksum;
pub mod text;
pub mod hex;
pub mod protocol;
pub mod transport;
pub mod status;
