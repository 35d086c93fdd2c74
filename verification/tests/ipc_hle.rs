use dsvita::hle::arm7_hle::{arm7_hle_frame_words, arm7_hle_ipc_sync, arm7_hle_route, Arm7HleRequest, IpcFifoTag};
use dsvita::hle::firmware_hle::{FirmwareAction, FirmwareHle};
use dsvita::hle::sound_hle::{SoundHle, SoundRoute};
use dsvita::hle::cart_hle::{save_size_from_param, CartAction, CartHle};
use dsvita::hle::mic_hle::{adjust_sample, MicAction, MicHle, MicSample};
use dsvita::cpu_regs::InterruptFlag;
use dsvita::cpu_type::CpuType;
use dsvita::hle::power_manager_hle::PowerManagerHle;
use dsvita::hle::rtc_hle::{RtcAction, RtcHle};
use dsvita::hle::touchscreen_hle::{touch_sample, TouchscreenAction, TouchscreenHle};
use dsvita::hle::wifi_hle::{WifiAction, WifiHle, WifiMsg, WifiScanDone};
use dsvita::ipc::{sync_write, Ipc, IpcEvent, IpcMode, ENABLE, ERR, RECV_EMPTY, RECV_FULL, RECV_NOT_EMPTY_IRQ, SEND_EMPTY, SEND_FULL};

#[test]
fn fifo_words_travel_in_order_with_flags() {
    let mut ipc = Ipc::new();
    assert_eq!(ipc.get_fifo_cnt(CpuType::ARM9), SEND_EMPTY | RECV_EMPTY);
    // Queues off: the send is an error.
    assert_eq!(ipc.fifo_send(CpuType::ARM9, 1), IpcEvent::Nothing);
    assert_ne!(ipc.fifo[0].cnt & ERR, 0);
    let (send_irq, recv_irq) = ipc.set_fifo_cnt(CpuType::ARM9, ENABLE | ERR);
    assert!(!send_irq && !recv_irq);
    assert_eq!(ipc.fifo[0].cnt & ERR, 0);
    ipc.set_fifo_cnt(CpuType::ARM7, ENABLE | RECV_NOT_EMPTY_IRQ);
    assert_eq!(
        ipc.fifo_send(CpuType::ARM9, 0x11),
        IpcEvent::Interrupt(CpuType::ARM7, InterruptFlag::IpcRecvFifoNotEmpty)
    );
    assert_eq!(ipc.fifo_send(CpuType::ARM9, 0x22), IpcEvent::Nothing);
    assert_eq!(ipc.fifo[0].cnt & SEND_EMPTY, 0);
    assert_eq!(ipc.fifo[1].cnt & RECV_EMPTY, 0);
    assert_eq!(ipc.fifo_recv(CpuType::ARM7), (0x11, IpcEvent::Nothing));
    assert_eq!(ipc.fifo_recv(CpuType::ARM7), (0x22, IpcEvent::Nothing));
    assert_ne!(ipc.fifo[1].cnt & RECV_EMPTY, 0);
    assert_ne!(ipc.fifo[0].cnt & SEND_EMPTY, 0);
    // Reading an empty queue: error, last word again.
    assert_eq!(ipc.fifo_recv(CpuType::ARM7), (0x22, IpcEvent::Nothing));
    assert_ne!(ipc.fifo[1].cnt & ERR, 0);
}

#[test]
fn fifo_fills_and_clears() {
    let mut ipc = Ipc::new();
    ipc.set_fifo_cnt(CpuType::ARM7, ENABLE);
    for i in 0..16 {
        ipc.fifo_send(CpuType::ARM7, i);
    }
    assert_ne!(ipc.fifo[1].cnt & SEND_FULL, 0);
    assert_ne!(ipc.fifo[0].cnt & RECV_FULL, 0);
    // A full queue drops the word.
    ipc.fifo_send(CpuType::ARM7, 99);
    ipc.set_fifo_cnt(CpuType::ARM9, ENABLE);
    assert_eq!(ipc.fifo_recv(CpuType::ARM9).0, 0);
    assert_eq!(ipc.fifo[1].cnt & SEND_FULL, 0);
    assert_eq!(ipc.fifo[0].cnt & RECV_FULL, 0);
    ipc.set_fifo_cnt(CpuType::ARM7, ENABLE | 0x0008);
    assert_ne!(ipc.fifo[1].cnt & SEND_EMPTY, 0);
    assert_ne!(ipc.fifo[0].cnt & RECV_EMPTY, 0);
    assert_eq!(ipc.fifo_recv(CpuType::ARM9).0, 0);
}

#[test]
fn sound_messages_go_to_the_driver() {
    let mut ipc = Ipc::new();
    ipc.init(IpcMode::LleSoundHle);
    ipc.set_fifo_cnt(CpuType::ARM9, ENABLE);
    assert_eq!(ipc.fifo_send(CpuType::ARM9, (5 << 6) | 7), IpcEvent::SoundHle(5));
    assert_eq!(ipc.fifo[0].cnt & SEND_EMPTY, SEND_EMPTY);
    let mut hle = Ipc::new();
    hle.init(IpcMode::Hle);
    hle.set_fifo_cnt(CpuType::ARM9, ENABLE);
    assert_eq!(hle.fifo_send(CpuType::ARM9, 3), IpcEvent::HleRecv);
    assert_eq!(hle.get_fifo_cnt(CpuType::ARM9) & (SEND_EMPTY | RECV_EMPTY), SEND_EMPTY | RECV_EMPTY);
}

#[test]
fn sync_register_passes_the_nibble() {
    let (local, remote, irq) = sync_write(0x2F05, 0x4003);
    assert_eq!(local, 0x0F00);
    assert_eq!(remote, 0x400F);
    assert!(irq);
    let (_, _, irq) = sync_write(0x2F05, 0x0003);
    assert!(!irq);
}

#[test]
fn touchscreen_sampling_lines() {
    let mut ts = TouchscreenHle::new();
    assert_eq!(ts.ipc_recv(0x0000_0000), TouchscreenAction::Nothing);
    // Set two sampling lines from line 10: first word (bit 25), then the last (bit 24).
    assert_eq!(ts.ipc_recv(0x0200_0102), TouchscreenAction::Nothing);
    assert_eq!(ts.ipc_recv(0x0101_000A), TouchscreenAction::Reply(0x0300_8100));
    assert_eq!(ts.on_scanline(10), TouchscreenAction::SampleAndReply(0x0300_9000));
    assert_eq!(ts.on_scanline(10 + 131), TouchscreenAction::SampleAndReply(0x0300_9001));
    assert_eq!(ts.on_scanline(11), TouchscreenAction::Nothing);
    // Setting again while sampling is refused.
    ts.ipc_recv(0x0200_0102);
    assert_eq!(ts.ipc_recv(0x0101_000A), TouchscreenAction::Reply(0x0300_8103));
    // Stop.
    assert_eq!(ts.ipc_recv(0x0300_0200), TouchscreenAction::Reply(0x0300_8200));
    assert_eq!(ts.on_scanline(10), TouchscreenAction::Nothing);
    assert_eq!(ts.ipc_recv(0x0300_0000), TouchscreenAction::SampleAndReply(0x0300_8000));
    assert_eq!(touch_sample(0xFFFF_FFFF, true, 0x123, 0x456), 0xF945_6123);
    assert_eq!(touch_sample(0x0000_1234, false, 0, 0), 0x0600_0000);
}

#[test]
fn rtc_and_power_manager_replies() {
    let rtc = RtcHle::new();
    assert_eq!(rtc.ipc_recv(0x1000), RtcAction::ReadDateTime { from: 0, to: 7, reply: 0x9000 });
    assert_eq!(rtc.ipc_recv(0x1200), RtcAction::ReadDateTime { from: 4, to: 7, reply: 0x9200 });
    assert_eq!(rtc.ipc_recv(0x0300), RtcAction::Reply(0x8301));
    assert_eq!(rtc.ipc_recv(0x1300), RtcAction::Nothing);
    let mut pm = PowerManagerHle::new();
    assert_eq!(pm.ipc_recv(0x0200_6400), None);
    assert_eq!(pm.ipc_recv(0x0101_0005), Some(0x0300_E400));
    assert_eq!(pm.ipc_recv(0x0300_6000), Some(0x0300_8000 | (0x70 << 8)));
    assert_eq!(pm.ipc_recv(0x0200_6100), None);
    assert_eq!(pm.ipc_recv(0x0101_0010), Some(0x0300_E300));
    let w = WifiHle::new();
    assert_eq!(w.scan_channel, 0);
}

#[test]
fn emulated_arm7_messages() {
    let mut ipc = Ipc::new();
    ipc.set_fifo_cnt(CpuType::ARM9, ENABLE | RECV_NOT_EMPTY_IRQ);
    // The first reply raises the ARM9 interrupt and clears the empty flags.
    assert!(ipc.arm7_hle_send_ipc_fifo(IpcFifoTag::Rtc.bits(), 0x9000, false));
    assert_eq!(ipc.fifo[1].queue.len(), 1);
    assert_eq!(ipc.fifo[1].queue.front(), 5 | (0x9000 << 6));
    assert_eq!(ipc.fifo[0].cnt & RECV_EMPTY, 0);
    assert_eq!(ipc.fifo[1].cnt & SEND_EMPTY, 0);
    assert!(!ipc.arm7_hle_send_ipc_fifo(11, 1, true));
    for _ in 0..14 {
        ipc.arm7_hle_send_ipc_fifo(4, 2, false);
    }
    // A seventeenth reply is dropped with the error and full flags.
    assert!(!ipc.arm7_hle_send_ipc_fifo(4, 3, false));
    assert_eq!(ipc.fifo[1].queue.len(), 16);
    assert_ne!(ipc.fifo[1].cnt & ERR, 0);
    assert_ne!(ipc.fifo[1].cnt & SEND_FULL, 0);
    assert_ne!(ipc.fifo[0].cnt & RECV_FULL, 0);

    let mut ipc = Ipc::new();
    ipc.init(IpcMode::Hle);
    ipc.set_fifo_cnt(CpuType::ARM9, ENABLE | 4);
    ipc.fifo_send(CpuType::ARM9, 0x1000 << 6 | 12);
    let (word, irq) = ipc.arm7_hle_recv_word();
    assert_eq!(word, 0x1000 << 6 | 12);
    assert!(irq);
    assert_eq!(arm7_hle_route(word), Arm7HleRequest::Reply { tag: IpcFifoTag::Os, data: 0x1000 });
    assert_eq!(arm7_hle_route(5 | (0x10 << 14)), Arm7HleRequest::Rtc(0x10 << 8));
    assert_eq!(arm7_hle_route(5 | 0x20), Arm7HleRequest::Nothing);
    assert_eq!(arm7_hle_route(11 | 0x20 | (7 << 6)), Arm7HleRequest::Cart(7));
    assert_eq!(arm7_hle_route(11 | (7 << 6)), Arm7HleRequest::Nothing);
    assert_eq!(arm7_hle_route(7 | 0x20 | (9 << 6)), Arm7HleRequest::Sound(9));
    assert_eq!(arm7_hle_route(13 | (0x41 << 6)), Arm7HleRequest::Reply { tag: IpcFifoTag::Cartridge, data: 1 });
    assert_eq!(arm7_hle_route(15 | (3 << 6)), Arm7HleRequest::Reply { tag: IpcFifoTag::ControlDrivingWirelessLib, data: 3 });
    assert_eq!(IpcFifoTag::from_bits(16), IpcFifoTag::CartridgeEx);
    assert_eq!(IpcFifoTag::from_bits(32).bits(), 32);
    assert_eq!(arm7_hle_ipc_sync(3), Some((4, false)));
    assert_eq!(arm7_hle_ipc_sync(5), Some((0, true)));
    assert_eq!(arm7_hle_ipc_sync(6), None);
    assert_eq!(arm7_hle_frame_words(0x0B, 0xFFFF_FFFF), (0x2C00, 0));
    assert_eq!(arm7_hle_frame_words(0x04, 7), (0, 8));
}

#[test]
fn firmware_and_sound_drivers() {
    let mut fw = FirmwareHle::new();
    // Command 3 (read): source 0x0001_0020, length 0x10, destination 0x0230_0000.
    assert_eq!(fw.ipc_recv(0x0200_2301), FirmwareAction::Nothing);
    assert_eq!(fw.ipc_recv(0x0001_0020), FirmwareAction::Nothing);
    assert_eq!(fw.ipc_recv(0x0002_0000), FirmwareAction::Nothing);
    assert_eq!(fw.ipc_recv(0x0003_0010), FirmwareAction::Nothing);
    assert_eq!(fw.ipc_recv(0x0004_0230), FirmwareAction::Nothing);
    assert_eq!(fw.ipc_recv(0x0105_0000), FirmwareAction::Copy { src: 0x0001_0020, len: 0x10, dst: 0x0230_0000 });
    // Command 0 replies at once; a destination outside main memory is refused.
    assert_eq!(fw.ipc_recv(0x0300_2000), FirmwareAction::Reply(0x0300A000));
    fw.ipc_recv(0x0200_2300);
    fw.ipc_recv(0x0004_0100);
    assert_eq!(fw.ipc_recv(0x0105_0000), FirmwareAction::Reply(0x0300A302));

    let mut s = SoundHle::new();
    assert_eq!(s.ipc_recv(0x0200_0000), SoundRoute { reset_nitro: true, to_nitro: true });
    assert_eq!(s.ipc_recv(5), SoundRoute { reset_nitro: false, to_nitro: true });
    let mut t = SoundHle::new();
    assert_eq!(t.ipc_recv(5), SoundRoute { reset_nitro: false, to_nitro: false });
    assert_eq!(t.engine, 1);
}

#[test]
fn cartridge_save_driver() {
    let mut c = CartHle::new();
    assert_eq!(c.ipc_recv(0, 0), CartAction::Nothing);
    assert_eq!(c.ipc_recv(0x0230_0000, 0), CartAction::Reply);
    assert_eq!(c.buffer, 0x0230_0000);
    assert_eq!(c.ipc_recv(2, 0), CartAction::ResizeSave { buffer: 0x0230_0000 });
    assert_eq!(c.ipc_recv(2, 0x2000), CartAction::Reply);
    assert_eq!(c.ipc_recv(6, 0x2000), CartAction::ReadSave { buffer: 0x0230_0000 });
    assert_eq!(c.ipc_recv(8, 0x2000), CartAction::WriteSave { buffer: 0x0230_0000 });
    assert_eq!(c.ipc_recv(9, 0x2000), CartAction::Reply);
    // An unknown command keeps collecting words.
    assert_eq!(c.ipc_recv(4, 0x2000), CartAction::Nothing);
    assert_eq!(c.ipc_recv(1, 0x2000), CartAction::Nothing);
    assert_eq!(c.data_pos, 2);
    assert_eq!(save_size_from_param(0x0000_0D00), 0x2000);
}

#[test]
fn microphone_driver() {
    assert_eq!(adjust_sample(3, -2), 0xFFFE);
    assert_eq!(adjust_sample(1, -2), 0x7FFE);
    assert_eq!(adjust_sample(2, -0x200), 0xFFFE);
    assert_eq!(adjust_sample(0, -0x200), 0x7E);
    let mut m = MicHle::new();
    // Start: unsigned 16-bit repeating samples into 0x0230_0000, 8 bytes, period 4190 cycles.
    m.ipc_recv(0x0200_4111, 32000);
    m.ipc_recv(0x0001_0230, 32000);
    m.ipc_recv(0x0002_0000, 32000);
    m.ipc_recv(0x0003_0000, 32000);
    m.ipc_recv(0x0004_0008, 32000);
    m.ipc_recv(0x0005_0000, 32000);
    assert_eq!(m.ipc_recv(0x0106_105E, 32000), MicAction::Start);
    assert_eq!(m.sample_size, 4);
    assert_eq!(m.sample_buf, 0x0230_0000);
    // 4 samples at 32 kHz for a rate of 33513982 / 4190 = 7998 Hz.
    assert_eq!(m.sample_max_count, 16);
    assert_eq!(m.sample_event(5), MicSample::Write { addr: 0x0230_0000, value: 0x8005, wide: true, done: false, again: true });
    for _ in 0..14 {
        m.sample_event(1);
    }
    assert_eq!(m.sample_event(7), MicSample::Write { addr: 0x0230_0006, value: 0x8007, wide: true, done: true, again: true });
    assert_eq!(m.sample_count, 0);
    assert_eq!(m.ipc_recv(0x0300_4200, 32000), MicAction::Reply(0x300c200));
    assert_eq!(m.sample_event(1), MicSample::Off);
    assert_eq!(m.ipc_recv(0x0300_4003, 32000), MicAction::Sample { flags: 3 });
    assert_eq!(m.ipc_recv(0x0300_5000, 32000), MicAction::Unknown(0x0300_5000));
}

fn wifi_msg(cmd: u16) -> WifiMsg {
    WifiMsg { cmd, channel: 0, word4: 0, word8: 0, word12: 0, max_channel_time: 0 }
}

#[test]
fn wireless_driver_answers_its_requests() {
    let mut w = WifiHle::new();
    let init = WifiMsg { cmd: 0, channel: 0, word4: 0x0230_0000, word8: 0x0230_1000, word12: 0x0230_2000, max_channel_time: 0 };
    let a = w.ipc_recv(0x0220_0000, init);
    assert_eq!(
        a,
        WifiAction { arm7_buf: Some(0x0230_0000), status: Some(2), reply: Some(0), scan_cycles: None, clear_status_word: true, ack: Some(0x8000) }
    );
    assert_eq!(w.msg_ptr, 0x0220_0000);
    assert_eq!(w.status_ptr, 0x0230_1000);
    assert_eq!(w.fifo_7_to_9_ptr, 0x0230_2000);

    let scan = WifiMsg { cmd: 10, channel: 7, word4: 0, word8: 0, word12: 0, max_channel_time: 3 };
    let a = w.ipc_recv(0x0220_0040, scan);
    assert_eq!(a, WifiAction { arm7_buf: None, status: Some(5), reply: None, scan_cycles: Some(3 * 34418 * 1024), clear_status_word: false, ack: None });
    assert_eq!(w.scan_channel, 7);
    assert_eq!(
        w.on_scan_event(),
        WifiScanDone { fifo_7_to_9_ptr: 0x0230_2000, channel: 7, scan_state: 4, status_word_addr: 0x0230_1004, msg_ptr: 0x0220_0040, ack: 0x800A }
    );

    let a = w.ipc_recv(0x0220_0080, wifi_msg(0x800B));
    assert_eq!(a, WifiAction { arm7_buf: None, status: Some(2), reply: Some(11), scan_cycles: None, clear_status_word: true, ack: Some(0x800B) });
    let a = w.ipc_recv(0x0220_0080, wifi_msg(2));
    assert_eq!(a.status, Some(0));
    assert_eq!(a.reply, Some(2));
    // Other requests are only acknowledged.
    let a = w.ipc_recv(0x0220_0080, wifi_msg(5));
    assert_eq!(a, WifiAction { arm7_buf: None, status: None, reply: None, scan_cycles: None, clear_status_word: true, ack: Some(0x8005) });
    let a = w.ipc_recv(0x0220_0080, wifi_msg(0x0130));
    assert_eq!(a, WifiAction { arm7_buf: None, status: None, reply: None, scan_cycles: None, clear_status_word: false, ack: Some(0x8130) });
    assert_eq!(w.status_ptr, 0x0230_1000);
}
