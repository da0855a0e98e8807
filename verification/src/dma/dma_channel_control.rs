//! The channel control register (CHCR) of a DMA channel.

use vstd::prelude::*;

verus! {

#[derive(Clone, Copy, PartialEq, Eq, Structural, Debug)]
pub enum TransferDirection {
    DeviceToRam,
    RamToDevice,
}

impl TransferDirection {
    #[verifier::allow_in_spec]
    pub fn code(&self) -> u32
        returns
            match self {
                TransferDirection::DeviceToRam => 0u32,
                TransferDirection::RamToDevice => 1,
            },
    {
        match self {
            TransferDirection::DeviceToRam => 0,
            TransferDirection::RamToDevice => 1,
        }
    }
}

#[derive(Clone, Copy, PartialEq, Eq, Structural, Debug)]
pub enum MardIncrementPerStep {
    Forward4,
    Backward4,
}

impl MardIncrementPerStep {
    #[verifier::allow_in_spec]
    pub fn code(&self) -> u32
        returns
            match self {
                MardIncrementPerStep::Forward4 => 0u32,
                MardIncrementPerStep::Backward4 => 1,
            },
    {
        match self {
            MardIncrementPerStep::Forward4 => 0,
            MardIncrementPerStep::Backward4 => 1,
        }
    }
}

#[derive(Clone, Copy, PartialEq, Eq, Structural, Debug)]
pub enum TransferMode {
    /// transfer data all at once after DREQ is first asserted
    Burst,
    /// split data into blocks, transfer next block whenever DREQ is asserted
    Slice,
    LinkedList,
    Reserved,
}

impl TransferMode {
    #[verifier::allow_in_spec]
    pub fn code(&self) -> u32
        returns
            match self {
                TransferMode::Burst => 0u32,
                TransferMode::Slice => 1,
                TransferMode::LinkedList => 2,
                TransferMode::Reserved => 3,
            },
    {
        match self {
            TransferMode::Burst => 0,
            TransferMode::Slice => 1,
            TransferMode::LinkedList => 2,
            TransferMode::Reserved => 3,
        }
    }
}

#[derive(Clone, Copy, PartialEq, Eq, Structural, Debug)]
pub enum StartTransfer {
    StoppedOrCompleted,
    StartOrBusy,
}

impl StartTransfer {
    #[verifier::allow_in_spec]
    pub fn code(&self) -> u32
        returns
            match self {
                StartTransfer::StoppedOrCompleted => 0u32,
                StartTransfer::StartOrBusy => 1,
            },
    {
        match self {
            StartTransfer::StoppedOrCompleted => 0,
            StartTransfer::StartOrBusy => 1,
        }
    }
}

/// 1 for `true`, 0 for `false`.
#[verifier::allow_in_spec]
pub fn flag32(b: bool) -> u32
    returns
        if b { 1u32 } else { 0u32 },
{
    if b { 1 } else { 0 }
}

pub struct DmaChannelControl {
    /// Transfer direction
    pub transfer_direction: TransferDirection,
    /// MADR increment per step
    pub mard_increment_per_step: MardIncrementPerStep,
    /// When true:
    /// -Burst mode: enable "chopping" (cycle stealing by CPU)
    /// -Slice mode: Causes DMA to hang
    /// -Linked-list mode: Transfer header before data?
    pub extended_mode_1: bool,
    /// Transfer mode (SyncMode)
    pub transfer_mode: TransferMode,
    /// Chopping DMA window size (1 << N words)
    pub chopping_dma_window_size: u8,
    /// Chopping CPU window size (1 << N cycles)
    pub chopping_cpu_window_size: u8,
    /// Start transfer
    pub start_transfer: StartTransfer,
    /// Force transfer start without waiting for DREQ
    pub force_transfer_start_without_waiting_for_dreq: bool,
    /// In forced-burst mode, pauses transfer while set.
    /// In other modes, stops bit 28 from being cleared after a slice is transferred.
    /// No effect when transfer was caused by a DREQ.
    pub extended_mode_2: bool,
    /// Perform bus snooping (allows DMA to read from -nonexistent- cache?)
    pub perform_bus_snooping: bool,
}

impl DmaChannelControl {
    /// The register word: direction at bit 0, increment 1, extended mode 1
    /// at 8, transfer mode 9..10, DMA window from bit 16, CPU window from
    /// bit 20, start 24, forced start 28, extended mode 2 at 29, snooping 30.
    /// Window sizes of 16 or more spill into the next field.
    pub open spec fn word(&self) -> u32 {
        self.transfer_direction.code() | (self.mard_increment_per_step.code() << 1u32) | (flag32(
            self.extended_mode_1,
        ) << 8u32) | (self.transfer_mode.code() << 9u32) | ((self.chopping_dma_window_size as u32) << 16u32) | ((
        self.chopping_cpu_window_size as u32) << 20u32) | (self.start_transfer.code() << 24u32) | (flag32(
            self.force_transfer_start_without_waiting_for_dreq,
        ) << 28u32) | (flag32(self.extended_mode_2) << 29u32) | (flag32(self.perform_bus_snooping) << 30u32)
    }

    /// RAM to device, forward, slice mode, start requested, no chopping.
    pub fn new() -> (c: DmaChannelControl)
        ensures
            c.transfer_direction == TransferDirection::RamToDevice,
            c.mard_increment_per_step == MardIncrementPerStep::Forward4,
            !c.extended_mode_1,
            c.transfer_mode == TransferMode::Slice,
            c.chopping_dma_window_size == 0,
            c.chopping_cpu_window_size == 0,
            c.start_transfer == StartTransfer::StartOrBusy,
            !c.force_transfer_start_without_waiting_for_dreq,
            !c.extended_mode_2,
            !c.perform_bus_snooping,
    {
        DmaChannelControl {
            transfer_direction: TransferDirection::RamToDevice,
            mard_increment_per_step: MardIncrementPerStep::Forward4,
            extended_mode_1: false,
            transfer_mode: TransferMode::Slice,
            chopping_dma_window_size: 0,
            chopping_cpu_window_size: 0,
            start_transfer: StartTransfer::StartOrBusy,
            force_transfer_start_without_waiting_for_dreq: false,
            extended_mode_2: false,
            perform_bus_snooping: false,
        }
    }

    pub fn to_u32(&self) -> (r: u32)
        ensures
            r == self.word(),
    {
        let mut value: u32 = self.transfer_direction.code();
        value |= self.mard_increment_per_step.code() << 1u32;
        value |= flag32(self.extended_mode_1) << 8u32;
        value |= self.transfer_mode.code() << 9u32;
        value |= (self.chopping_dma_window_size as u32) << 16u32;
        value |= (self.chopping_cpu_window_size as u32) << 20u32;
        value |= self.start_transfer.code() << 24u32;
        value |= flag32(self.force_transfer_start_without_waiting_for_dreq) << 28u32;
        value |= flag32(self.extended_mode_2) << 29u32;
        value |= flag32(self.perform_bus_snooping) << 30u32;
        value
    }
}

/// With both window sizes below 16, every setting of the channel control
/// word sits in its own bits and reads back unchanged.
pub proof fn lemma_channel_control_fields(c: DmaChannelControl)
    requires
        c.chopping_dma_window_size < 16,
        c.chopping_cpu_window_size < 16,
    ensures
        c.word() & 1 == c.transfer_direction.code(),
        (c.word() >> 1u32) & 1 == c.mard_increment_per_step.code(),
        (c.word() >> 8u32) & 1 == flag32(c.extended_mode_1),
        (c.word() >> 9u32) & 3 == c.transfer_mode.code(),
        (c.word() >> 16u32) & 15 == c.chopping_dma_window_size as u32,
        (c.word() >> 20u32) & 15 == c.chopping_cpu_window_size as u32,
        (c.word() >> 24u32) & 1 == c.start_transfer.code(),
        (c.word() >> 28u32) & 1 == flag32(c.force_transfer_start_without_waiting_for_dreq),
        (c.word() >> 29u32) & 1 == flag32(c.extended_mode_2),
        (c.word() >> 30u32) & 1 == flag32(c.perform_bus_snooping),
{
    let w = c.word();
    let d = c.transfer_direction.code();
    let i = c.mard_increment_per_step.code();
    let e1 = flag32(c.extended_mode_1);
    let m = c.transfer_mode.code();
    let dw = c.chopping_dma_window_size as u32;
    let cw = c.chopping_cpu_window_size as u32;
    let st = c.start_transfer.code();
    let f = flag32(c.force_transfer_start_without_waiting_for_dreq);
    let e2 = flag32(c.extended_mode_2);
    let sn = flag32(c.perform_bus_snooping);
    assert(w & 1 == d && (w >> 1u32) & 1 == i && (w >> 8u32) & 1 == e1 && (w >> 9u32) & 3 == m && (w >> 16u32) & 15
        == dw && (w >> 20u32) & 15 == cw && (w >> 24u32) & 1 == st && (w >> 28u32) & 1 == f && (w >> 29u32) & 1 == e2
        && (w >> 30u32) & 1 == sn) by (bit_vector)
        requires
            d <= 1 && i <= 1 && e1 <= 1 && m < 4 && dw < 16 && cw < 16 && st <= 1 && f <= 1 && e2 <= 1 && sn <= 1,
            w == d | (i << 1u32) | (e1 << 8u32) | (m << 9u32) | (dw << 16u32) | (cw << 20u32) | (st << 24u32) | (f
                << 28u32) | (e2 << 29u32) | (sn << 30u32),
    ;
}

} // verus!
