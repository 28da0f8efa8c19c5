//! Bridge between a modern host and a vintage PC.
//!
//! The bridge plugs into the keyboard, mouse and parallel ports of the vintage
//! machine. It watches the keyboard wire to find out what kind of machine it is
//! (`ps2_framer`, `ps2`), types a first program into it (`ps2::injector`), and then
//! serves larger programs over the parallel port (`packet`, `packet_stream`,
//! `protocol`, `lpt`).

pub mod block_source;
pub mod bytes;
pub mod cap;
pub mod crc;
pub mod crc_sniffer;
pub mod dma;
pub mod fixed_vec;
pub mod lifecycle;
pub mod lpt;
pub mod packet;
pub mod packet_stream;
pub mod pio_asm;
pub mod pio_config;
pub mod pio_machine;
pub mod protocol;
pub mod ps2;
pub mod ps2_framer;
pub mod signatures;
pub mod status;
pub mod telemetry;
pub mod telemetry_schema;
