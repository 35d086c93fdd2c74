pub mod div_sqrt;
pub mod fixed_fifo;
pub mod graphics;
pub mod action_replay;
pub mod cheats;
pub mod cpu_type;
pub mod cycle_manager;
pub mod key1;
pub mod cartridge_layout;
pub mod cartridge_io;
pub mod cartridge_reader;
pub mod cartridge;
pub mod bitset;
pub mod cpu_regs;
pub mod exception_handler;
pub mod cp15;
pub mod input;
pub mod ipc;
pub mod hle;
pub mod emu;
pub mod io_lut;
