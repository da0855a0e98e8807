//! Register layouts of the DMA controller and of the SPU's control and
//! status registers.

pub mod dma_channel_control;
pub mod spu;
