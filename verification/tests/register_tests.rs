use ps1_audio::dma::dma_channel_control::{
    DmaChannelControl, MardIncrementPerStep, StartTransfer, TransferDirection, TransferMode,
};
use ps1_audio::dma::spu::spu_control::{NoiseFrequencyShift, NoiseFrequencyStep, SpuControl, SpuRamTransferMode};
use ps1_audio::dma::spu::spu_status::SpuStatus;
use ps1_audio::helpers::{MessageLog, LOG_LINES};
use ps1_audio::song_bios_startup_theme::Adsr as RawAdsr;
use ps1_audio::spu::music::{Adsr, AdsrDir, AdsrMode};

#[test]
fn dma_channel_control_default_word() {
    let c = DmaChannelControl::new();
    assert_eq!(c.transfer_direction, TransferDirection::RamToDevice);
    assert_eq!(c.transfer_mode, TransferMode::Slice);
    assert_eq!(c.start_transfer, StartTransfer::StartOrBusy);
    assert_eq!(c.to_u32(), 0x0100_0201);
}

#[test]
fn dma_channel_control_every_field() {
    let c = DmaChannelControl {
        transfer_direction: TransferDirection::DeviceToRam,
        mard_increment_per_step: MardIncrementPerStep::Backward4,
        extended_mode_1: true,
        transfer_mode: TransferMode::LinkedList,
        chopping_dma_window_size: 3,
        chopping_cpu_window_size: 5,
        start_transfer: StartTransfer::StoppedOrCompleted,
        force_transfer_start_without_waiting_for_dreq: true,
        extended_mode_2: true,
        perform_bus_snooping: true,
    };
    assert_eq!(c.to_u32(), 0b10 | (1 << 8) | (2 << 9) | (3 << 16) | (5 << 20) | (1 << 28) | (1 << 29) | (1 << 30));
    let r = DmaChannelControl { transfer_mode: TransferMode::Reserved, chopping_dma_window_size: 0xFF, ..c };
    // a window size of 16 or more spills into the next field
    assert_eq!(r.to_u32() & 0x00FF_0000, 0x00FF_0000);
    assert_eq!((r.to_u32() >> 9) & 3, 3);
}

#[test]
fn spu_control_default_is_zero() {
    assert_eq!(SpuControl::new().to_u16(), 0);
}

#[test]
fn spu_control_packs_fields() {
    let c = SpuControl {
        spu_enable: true,
        mute_spu: false,
        noise_freq_shift: NoiseFrequencyShift::Medium9,
        noise_freq_step: NoiseFrequencyStep::Step6,
        reverb_master_enable: true,
        irq9_enable: false,
        sound_ram_transfer_mode: SpuRamTransferMode::DMAWrite,
        external_audio_reverb: false,
        cd_audio_reverb: true,
        external_audio_enable: false,
        cd_audio_enable: true,
    };
    assert_eq!(c.to_u16(), 0x8000 | (9 << 10) | (2 << 8) | 0x80 | (2 << 4) | 0x4 | 0x1);
    assert_eq!(NoiseFrequencyShift::High15.code(), 15);
}

#[test]
fn spu_status_decodes_each_bit() {
    let s = SpuStatus::from_u16(&0b1000_0100_0010_1001);
    assert!(s.unknown15);
    assert!(!s.unknown14);
    assert!(s.data_transfer_busy_flag);
    assert!(!s.irq9_flag_interrupt_request);
    assert_eq!(s.sound_ram_transfer_mode, SpuRamTransferMode::DMAWrite);
    assert!(s.external_audio_reverb);
    assert!(!s.cd_audio_reverb);
    assert!(!s.external_audio_enable);
    assert!(s.cd_audio_enable);
}

#[test]
fn transfer_mode_codes() {
    assert_eq!(SpuStatus::get_sound_ram_transfer_mode(&0x0000), SpuRamTransferMode::Stop);
    assert_eq!(SpuStatus::get_sound_ram_transfer_mode(&0x0010), SpuRamTransferMode::ManualWrite);
    assert_eq!(SpuStatus::get_sound_ram_transfer_mode(&0x0020), SpuRamTransferMode::DMAWrite);
    assert_eq!(SpuStatus::get_sound_ram_transfer_mode(&0xFFFF), SpuRamTransferMode::DMARead);
}

#[test]
fn status_mirrors_low_control_bits() {
    let c = SpuControl {
        spu_enable: true,
        mute_spu: true,
        noise_freq_shift: NoiseFrequencyShift::Low3,
        noise_freq_step: NoiseFrequencyStep::Step7,
        reverb_master_enable: true,
        irq9_enable: true,
        sound_ram_transfer_mode: SpuRamTransferMode::DMARead,
        external_audio_reverb: true,
        cd_audio_reverb: false,
        external_audio_enable: true,
        cd_audio_enable: false,
    };
    let s = SpuStatus::from_u16(&c.to_u16());
    assert_eq!(s.sound_ram_transfer_mode, c.sound_ram_transfer_mode);
    assert_eq!(s.external_audio_reverb, c.external_audio_reverb);
    assert_eq!(s.cd_audio_reverb, c.cd_audio_reverb);
    assert_eq!(s.external_audio_enable, c.external_audio_enable);
    assert_eq!(s.cd_audio_enable, c.cd_audio_enable);
}

#[test]
fn message_log_keeps_the_last_lines_in_order() {
    let mut m = MessageLog::new();
    let lines = m.record(String::from("first"));
    assert_eq!(lines, vec![String::from("first")]);
    let lines = m.record(String::from("second"));
    assert_eq!(lines, vec![String::from("first"), String::from("second")]);
    let mut last = Vec::new();
    for i in 0..LOG_LINES {
        last = m.record(format!("line {}", i));
    }
    assert_eq!(last.len(), LOG_LINES);
    assert_eq!(last[0], "line 0");
    assert_eq!(last[LOG_LINES - 1], format!("line {}", LOG_LINES - 1));
    let after = m.record(String::from("newest"));
    assert_eq!(after.len(), LOG_LINES);
    assert_eq!(after[0], "line 1");
    assert_eq!(after[LOG_LINES - 1], "newest");
}

#[test]
fn raw_envelope_packing() {
    let sweep = RawAdsr { am: 1, ash: 0x0A, a_s: 0, dsh: 0x04, sl: 0x0A, sm: 1, sd: 1, ssh: 0x12, ss: 0, rm: 1, rsh: 0x0E };
    assert_eq!(sweep.pack(), 0x722E_A84A);
    let bell = RawAdsr { am: 0, ash: 0, a_s: 0, dsh: 0x0A, sl: 0x0A, sm: 1, sd: 1, ssh: 0x0F, ss: 0, rm: 1, rsh: 0x08 };
    assert_eq!(bell.pack(), 0x6F28_00AA);
}

#[test]
fn raw_packing_agrees_with_builder() {
    let raw = RawAdsr { am: 1, ash: 0x04, a_s: 0, dsh: 0x0A, sl: 0x0A, sm: 1, sd: 1, ssh: 0x13, ss: 0, rm: 1, rsh: 0x10 };
    let built = Adsr::new()
        .attack(AdsrMode::Exp, 0x04)
        .decay(0x0A)
        .sustain_level(0x0A)
        .sustain(AdsrMode::Exp, AdsrDir::Decrease, 0x13)
        .release(AdsrMode::Exp, 0x10);
    assert_eq!(raw.pack(), built.raw());
}
