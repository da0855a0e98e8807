//! Audio engine, tracker data model, cooperative task scheduler and
//! register encoders for the PlayStation 1 sound processing unit.

pub mod common;
pub mod spu2;
pub mod spu;
pub mod runtime;
pub mod dma;
pub mod helpers;
pub mod song_bios_startup_theme;
