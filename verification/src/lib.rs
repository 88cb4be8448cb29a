//! Core of an Agon Light emulator: the peripherals of the ez80f92, its memory
//! map and port decoding, and the rules of the host file system traps and of
//! the debugger.

pub mod agon_machine;
pub mod bits;
pub mod debugger;
pub mod firmware;
pub mod gpio;
pub mod gpio_video;
pub mod host_model;
pub mod hostfs;
pub mod i2c;
pub mod joypad;
pub mod keyboard;
pub mod memory;
pub mod mos;
pub mod mouse;
pub mod mos_path;
pub mod parser;
pub mod prt_timer;
pub mod screen;
pub mod spi_sdcard;
pub mod symbol_map;
pub mod text;
pub mod uart;
pub mod vdp_console;
