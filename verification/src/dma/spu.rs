//! The SPU control register (SPUCNT) and status register (SPUSTAT).

pub mod spu_control;
pub mod spu_status;
