use dsvita::bitset::Bitset;
use dsvita::cp15::{Cp15, TcmState, TcmUpdate};
use dsvita::cpu_regs::{CpuRegs, InterruptFlag, InterruptFlags};
use dsvita::cpu_type::CpuType;
use dsvita::cycle_manager::{CycleManager, EventType, ImmEventType};
use dsvita::exception_handler::{route, ExceptionEntry, ExceptionRoute, ExceptionVector};
use dsvita::input::{ext_key_in_from, key_input_from, Input, Keycode};
use std::sync::atomic::{AtomicU32, Ordering};
use std::sync::Arc;

#[test]
fn bitset_set_operations() {
    let mut a: Bitset<2> = Bitset::new();
    assert!(a.is_empty());
    a.insert(3);
    a.insert(40);
    assert!(a.contains(3) && a.contains(40) && !a.contains(4));
    assert!(!a.is_empty());
    let b = Bitset::<2>::new().with_bit(40).with_bit(63);
    let u = a.union(b);
    assert!(u.contains(3) && u.contains(40) && u.contains(63));
    let i = a.intersection(b);
    assert!(i.contains(40) && !i.contains(3) && !i.contains(63));
    let d = a.difference(b);
    assert!(d.contains(3) && !d.contains(40));
    let x = a.symmetric_difference(b);
    assert!(x.contains(3) && !x.contains(40) && x.contains(63));
    let c = a.complement();
    assert!(!c.contains(3) && c.contains(4) && c.contains(0));
    assert_eq!(c.complement().0, a.0);
    a.remove(3);
    a = a.without_bit(40);
    assert!(a.is_empty());
    let mut full = c;
    full.clear();
    assert!(full.is_empty());
}

#[test]
fn interrupt_sending_and_waking() {
    let mut r = CpuRegs::new();
    r.halt(0);
    assert!(r.is_halted());
    // Not enabled: nothing happens but the request bit.
    assert!(!r.send_interrupt(CpuType::ARM7, InterruptFlag::Timer0Overflow, false));
    assert_eq!(r.irf, 1 << 3);
    assert!(r.is_halted());
    assert!(!r.set_ie(CpuType::ARM7, 0xFFFF_FFFF, 1 << 3, false));
    // Enabled but master off: the ARM7 wakes.
    assert!(!r.send_interrupt(CpuType::ARM7, InterruptFlag::Timer0Overflow, false));
    assert!(!r.is_halted());
    assert!(r.set_ime(1, false));
    assert!(r.send_interrupt(CpuType::ARM7, InterruptFlag::IpcSync, false));
    assert_eq!(r.irf, (1 << 3) | (1 << 16));
    r.set_irf(0xFFFF_FFFF, 1 << 3);
    assert_eq!(r.irf, 1 << 16);
    assert!(!r.check_for_interrupt(false));
    r.halt(0);
    assert!(!r.on_interrupt_event(false));
    assert!(r.is_halted());
}

#[test]
fn arm9_interrupt_masks() {
    let mut r = CpuRegs::new();
    r.set_ie(CpuType::ARM9, 0xFFFF_FFFF, 0xFFFF_FFFF, true);
    assert_eq!(r.ie, 0x003F_3F7F);
    r.set_post_flg(CpuType::ARM9, 0x3);
    assert_eq!(r.post_flg, 3);
    r.set_post_flg(CpuType::ARM9, 0x1);
    assert_eq!(r.post_flg, 1);
    r.set_post_flg(CpuType::ARM7, 0x2);
    assert_eq!(r.post_flg, 1);
    r.set_halt_cnt(0xFF);
    assert_eq!(r.halt_cnt, 0xC0);
    let flags = InterruptFlags((1 << 0) | (1 << 18) | (1 << 24)).flags();
    assert_eq!(flags, vec![InterruptFlag::LcdVBlank, InterruptFlag::IpcRecvFifoNotEmpty, InterruptFlag::Wifi]);
    assert_eq!(InterruptFlag::from_bit(22), InterruptFlag::ScreensUnfolding);
}

#[test]
fn exception_entry_and_routes() {
    assert_eq!(ExceptionVector::NormalInterrupt.address(), 0x18);
    assert_eq!(ExceptionVector::NormalInterrupt.mode(), 0x12);
    assert_eq!(ExceptionVector::UndefinedInstruction.mode(), 0x1B);
    assert_eq!(
        route(CpuType::ARM9, 0, ExceptionVector::NormalInterrupt, 0x6000_003F, 0x0200_0000),
        ExceptionRoute::Enter(ExceptionEntry { cpsr: 0x6000_00D2, lr: 0x0200_0004, pc: 0x18 })
    );
    assert_eq!(
        route(CpuType::ARM7, 0, ExceptionVector::SoftwareInterrupt, 0, 0),
        ExceptionRoute::BiosSwi
    );
    assert_eq!(
        route(CpuType::ARM9, 0xFFFF_0000, ExceptionVector::NormalInterrupt, 0, 0),
        ExceptionRoute::BiosInterrupt
    );
    assert_eq!(route(CpuType::ARM9, 0xFFFF_0000, ExceptionVector::DataAbort, 0, 0), ExceptionRoute::Unhandled);
}

#[test]
fn cp15_control_and_tcm() {
    let mut cp = Cp15::new();
    assert_eq!(cp.read(0x010000), 0x78);
    assert_eq!(cp.read(0x000000), 0x41059461);
    let upd = cp.write(0x010000, 0x000F_2000 | 0x0005_0000);
    assert_eq!(upd, TcmUpdate { itcm: true, dtcm: true });
    assert_eq!(cp.exception_addr, 0xFFFF_0000);
    assert_eq!(cp.itcm_state, TcmState::W);
    assert_eq!(cp.dtcm_state, TcmState::W);
    let upd = cp.write(0x010000, 0x0005_0000);
    assert_eq!(upd, TcmUpdate { itcm: true, dtcm: true });
    assert_eq!(cp.itcm_state, TcmState::RW);
    assert_eq!(cp.exception_addr, 0);
    cp.write(0x090100, 0x0080_000A);
    assert_eq!(cp.dtcm_addr, 0x0080_0000);
    assert_eq!(cp.dtcm_size, 0x4000);
    cp.write(0x090101, 0x0000_0002);
    assert_eq!(cp.itcm_size, 0x1000);
    assert_eq!(cp.read(0x090101), 2);
    cp.write(0x0D0001, 9);
    assert_eq!(cp.read(0x0D0101), 9);
    assert_eq!(cp.read(0x123456), 0);
}

#[test]
fn key_registers_follow_the_map() {
    assert_eq!(key_input_from(0x3FF, 0x0000_0000), 0);
    assert_eq!(key_input_from(0xFC00, 0x3FF), 0xFFFF);
    assert_eq!(ext_key_in_from(0x007F, 0x0000_0000), 0x003C);
    let map = Arc::new(AtomicU32::new(0xFFFF_FFFF));
    let mut input = Input::new(map.clone());
    assert_eq!(input.get_key_input(), 0x3FF);
    assert_eq!(input.get_ext_key_in(), 0x7F);
    map.store(!(1u32 << Keycode::A.bit()), Ordering::Relaxed);
    assert_eq!(input.get_key_input(), 0x3FE);
    // A press of the lid key closes the lid; the next press opens it again
    // and raises the unfolding interrupt.
    let a = input.apply_hotkeys(!(1u32 << Keycode::Lid.bit()));
    assert!(!a.unfold_irq);
    assert_eq!(input.get_ext_key_in() & 0x80, 0x80);
    let a = input.apply_hotkeys(!(1u32 << Keycode::Lid.bit()));
    assert!(!a.unfold_irq);
    input.apply_hotkeys(0xFFFF_FFFF);
    let a = input.apply_hotkeys(!(1u32 << Keycode::Lid.bit()) & !(1u32 << Keycode::BlowMic.bit()));
    assert!(a.unfold_irq);
    assert!(a.blow_mic);
    assert_eq!(input.get_ext_key_in() & 0x80, 0);
}

#[test]
fn scheduler_runs_due_events_in_order() {
    let mut cm = CycleManager::new();
    cm.schedule(10, EventType::Timer0Arm9);
    cm.schedule(5, EventType::GpuScanline256);
    cm.schedule_imm(ImmEventType::Dma1Arm7);
    assert_eq!(cm.take_imm_events(), vec![ImmEventType::Dma1Arm7]);
    assert!(cm.take_imm_events().is_empty());
    cm.add_cycles(4);
    assert!(cm.begin_due_events().is_none());
    cm.jump_to_next_event();
    assert_eq!(cm.get_cycles(), 5);
    let mut scan = cm.begin_due_events().unwrap();
    assert_eq!(cm.next_due_event(&mut scan), Some(EventType::GpuScanline256));
    assert_eq!(cm.next_due_event(&mut scan), None);
    cm.jump_to_next_event();
    assert_eq!(cm.get_cycles(), 10);
    let mut scan = cm.begin_due_events().unwrap();
    assert_eq!(cm.next_due_event(&mut scan), Some(EventType::Timer0Arm9));
    assert_eq!(cm.next_due_event(&mut scan), None);
    assert_eq!(EventType::timer(CpuType::ARM7, 2), EventType::Timer2Arm7);
    assert_eq!(ImmEventType::dma(CpuType::ARM9, 3), ImmEventType::Dma3Arm9);
}

#[test]
fn a_whole_pass_takes_every_due_event_in_order() {
    let mut cm = CycleManager::new();
    cm.schedule(7, EventType::Timer0Arm9);
    cm.schedule(5, EventType::GpuScanline256);
    cm.schedule(20, EventType::SpuSample);
    assert!(cm.take_due_events().is_none());
    cm.add_cycles(8);
    let due = cm.take_due_events().unwrap();
    assert_eq!(due, vec![EventType::GpuScanline256, EventType::Timer0Arm9]);
    assert_eq!(cm.take_due_events(), None);
    cm.jump_to_next_event();
    assert_eq!(cm.get_cycles(), 20);
    assert_eq!(cm.take_due_events().unwrap(), vec![EventType::SpuSample]);
}
