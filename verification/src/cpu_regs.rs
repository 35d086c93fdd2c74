use vstd::prelude::*;
use crate::cpu_type::CpuType;

verus! {

/// The sources of an interrupt request.
#[derive(Clone, Copy, Debug, PartialEq, Eq, Structural)]
pub enum InterruptFlag {
    LcdVBlank,
    LcdHBlank,
    LcdVCounterMatch,
    Timer0Overflow,
    Timer1Overflow,
    Timer2Overflow,
    Timer3Overflow,
    Rtc,
    Dma0,
    Dma1,
    Dma2,
    Dma3,
    Keypad,
    GbaSlot,
    IpcSync,
    IpcSendFifoEmpty,
    IpcRecvFifoNotEmpty,
    NdsSlotTransferCompletion,
    NdsSlotIreqMc,
    GeometryCmdFifo,
    ScreensUnfolding,
    SpiBus,
    Wifi,
}

/// The bit of a source in the interrupt registers.
pub open spec fn flag_bit(f: InterruptFlag) -> int {
    match f {
        InterruptFlag::LcdVBlank => 0,
        InterruptFlag::LcdHBlank => 1,
        InterruptFlag::LcdVCounterMatch => 2,
        InterruptFlag::Timer0Overflow => 3,
        InterruptFlag::Timer1Overflow => 4,
        InterruptFlag::Timer2Overflow => 5,
        InterruptFlag::Timer3Overflow => 6,
        InterruptFlag::Rtc => 7,
        InterruptFlag::Dma0 => 8,
        InterruptFlag::Dma1 => 9,
        InterruptFlag::Dma2 => 10,
        InterruptFlag::Dma3 => 11,
        InterruptFlag::Keypad => 12,
        InterruptFlag::GbaSlot => 13,
        InterruptFlag::IpcSync => 16,
        InterruptFlag::IpcSendFifoEmpty => 17,
        InterruptFlag::IpcRecvFifoNotEmpty => 18,
        InterruptFlag::NdsSlotTransferCompletion => 19,
        InterruptFlag::NdsSlotIreqMc => 20,
        InterruptFlag::GeometryCmdFifo => 21,
        InterruptFlag::ScreensUnfolding => 22,
        InterruptFlag::SpiBus => 23,
        InterruptFlag::Wifi => 24,
    }
}

impl InterruptFlag {
    /// The bit of the source in the interrupt registers.
    pub fn bit(self) -> (r: u8)
        ensures
            r == flag_bit(self),
            r <= 24 && r != 14 && r != 15,
    {
        match self {
            InterruptFlag::LcdVBlank => 0,
            InterruptFlag::LcdHBlank => 1,
            InterruptFlag::LcdVCounterMatch => 2,
            InterruptFlag::Timer0Overflow => 3,
            InterruptFlag::Timer1Overflow => 4,
            InterruptFlag::Timer2Overflow => 5,
            InterruptFlag::Timer3Overflow => 6,
            InterruptFlag::Rtc => 7,
            InterruptFlag::Dma0 => 8,
            InterruptFlag::Dma1 => 9,
            InterruptFlag::Dma2 => 10,
            InterruptFlag::Dma3 => 11,
            InterruptFlag::Keypad => 12,
            InterruptFlag::GbaSlot => 13,
            InterruptFlag::IpcSync => 16,
            InterruptFlag::IpcSendFifoEmpty => 17,
            InterruptFlag::IpcRecvFifoNotEmpty => 18,
            InterruptFlag::NdsSlotTransferCompletion => 19,
            InterruptFlag::NdsSlotIreqMc => 20,
            InterruptFlag::GeometryCmdFifo => 21,
            InterruptFlag::ScreensUnfolding => 22,
            InterruptFlag::SpiBus => 23,
            InterruptFlag::Wifi => 24,
        }
    }

    /// The source at bit `value`.
    pub fn from_bit(value: u8) -> (r: InterruptFlag)
        requires
            value <= 24,
            value != 14,
            value != 15,
        ensures
            flag_bit(r) == value,
    {
        match value {
            0 => InterruptFlag::LcdVBlank,
            1 => InterruptFlag::LcdHBlank,
            2 => InterruptFlag::LcdVCounterMatch,
            3 => InterruptFlag::Timer0Overflow,
            4 => InterruptFlag::Timer1Overflow,
            5 => InterruptFlag::Timer2Overflow,
            6 => InterruptFlag::Timer3Overflow,
            7 => InterruptFlag::Rtc,
            8 => InterruptFlag::Dma0,
            9 => InterruptFlag::Dma1,
            10 => InterruptFlag::Dma2,
            11 => InterruptFlag::Dma3,
            12 => InterruptFlag::Keypad,
            13 => InterruptFlag::GbaSlot,
            16 => InterruptFlag::IpcSync,
            17 => InterruptFlag::IpcSendFifoEmpty,
            18 => InterruptFlag::IpcRecvFifoNotEmpty,
            19 => InterruptFlag::NdsSlotTransferCompletion,
            20 => InterruptFlag::NdsSlotIreqMc,
            21 => InterruptFlag::GeometryCmdFifo,
            22 => InterruptFlag::ScreensUnfolding,
            23 => InterruptFlag::SpiBus,
            _ => InterruptFlag::Wifi,
        }
    }
}

/// A set of interrupt sources, one bit each.
pub struct InterruptFlags(pub u32);

impl InterruptFlags {
    /// The sources in the set, lowest bit first.
    pub fn flags(&self) -> (r: Vec<InterruptFlag>)
        requires
            self.0 & 0xC000 == 0,
        ensures
            forall|k: int| 0 <= k < r@.len() ==> (self.0 >> (flag_bit(r@[k]) as u32)) & 1 == 1,
            forall|k: int, j: int| 0 <= k < j < r@.len() ==> flag_bit(r@[k]) < flag_bit(r@[j]),
            forall|b: u32|
                b <= 24 && (self.0 >> b) & 1 == 1 ==> exists|k: int|
                    0 <= k < r@.len() && flag_bit(#[trigger] r@[k]) == b,
    {
        let v = self.0;
        let mut r: Vec<InterruptFlag> = Vec::new();
        let mut i: u8 = 0;
        while i <= 24
            invariant
                i <= 25,
                v == self.0,
                v & 0xC000 == 0,
                forall|k: int| 0 <= k < r@.len() ==> (v >> (flag_bit(r@[k]) as u32)) & 1 == 1,
                forall|k: int| 0 <= k < r@.len() ==> flag_bit(r@[k]) < i,
                forall|k: int, j: int| 0 <= k < j < r@.len() ==> flag_bit(r@[k]) < flag_bit(r@[j]),
                forall|b: u32|
                    b < i && (v >> b) & 1 == 1 ==> exists|k: int|
                        0 <= k < r@.len() && flag_bit(#[trigger] r@[k]) == b,
            decreases 25 - i,
        {
            let b = i as u32;
            let ghost before = r@;
            let set = v & (1u32 << b) != 0;
            if set {
                assert((v >> b) & 1 == 1) by (bit_vector)
                    requires
                        v & (1u32 << b) != 0,
                        b <= 24,
                ;
                assert(b != 14 && b != 15) by (bit_vector)
                    requires
                        (v >> b) & 1 == 1,
                        v & 0xC000 == 0,
                ;
                let f = InterruptFlag::from_bit(i);
                r.push(f);
                assert(flag_bit(r@[r@.len() - 1]) == b);
            } else {
                assert((v >> b) & 1 != 1) by (bit_vector)
                    requires
                        v & (1u32 << b) == 0,
                        b <= 24,
                ;
            }
            proof {
                assert forall|bb: u32| bb < i + 1 && (v >> bb) & 1 == 1 implies exists|k: int|
                    0 <= k < r@.len() && flag_bit(#[trigger] r@[k]) == bb by {
                    if bb < i {
                        let k = choose|k: int| 0 <= k < before.len() && flag_bit(#[trigger] before[k]) == bb;
                        assert(r@[k] == before[k]);
                    } else {
                        assert(bb == b);
                        assert(flag_bit(r@[r@.len() - 1]) == bb);
                    }
                }
            }
            i = i + 1;
        }
        r
    }
}

/// The interrupt and power registers of one processor.
pub struct CpuRegs {
    pub ie: u32,
    pub irf: u32,
    pub ime: u8,
    pub post_flg: u8,
    pub halt_cnt: u8,
    pub halt: u8,
    pub bios_wait_flags: u32,
}

/// The interrupt enable bits that exist on a processor.
pub open spec fn ie_mask(cpu: CpuType) -> u32 {
    match cpu {
        CpuType::ARM9 => 0x003F3F7F,
        CpuType::ARM7 => 0x01FF3FFF,
    }
}

/// Whether a processor takes an interrupt: interrupts are on, an enabled
/// source is requesting, and the processor does not mask them.
pub open spec fn interrupt_ready(r: CpuRegs, irq_disabled: bool) -> bool {
    r.ime != 0 && r.ie & r.irf != 0 && !irq_disabled
}

impl CpuRegs {
    /// The registers at power on: all zero.
    pub fn new() -> (r: Self)
        ensures
            r == (CpuRegs { ie: 0, irf: 0, ime: 0, post_flg: 0, halt_cnt: 0, halt: 0, bios_wait_flags: 0 }),
    {
        CpuRegs { ie: 0, irf: 0, ime: 0, post_flg: 0, halt_cnt: 0, halt: 0, bios_wait_flags: 0 }
    }

    /// Writes the master enable; the result tells whether an interrupt is to
    /// be taken now (`irq_disabled`: the processor's IRQ mask bit).
    pub fn set_ime(&mut self, value: u8, irq_disabled: bool) -> (r: bool)
        ensures
            *final(self) == (CpuRegs { ime: value & 1, ..*old(self) }),
            r == interrupt_ready(*final(self), irq_disabled),
    {
        self.ime = value & 0x1;
        self.check_for_interrupt(irq_disabled)
    }

    /// Writes the enable register, of which `cpu` has only some bits; the
    /// result tells whether an interrupt is to be taken now.
    pub fn set_ie(&mut self, cpu: CpuType, mask: u32, value: u32, irq_disabled: bool) -> (r: bool)
        ensures
            *final(self) == (CpuRegs {
                ie: (old(self).ie & !(mask & ie_mask(cpu))) | (value & (mask & ie_mask(cpu))),
                ..*old(self)
            }),
            r == interrupt_ready(*final(self), irq_disabled),
    {
        let m = match cpu {
            CpuType::ARM9 => mask & 0x003F3F7F,
            CpuType::ARM7 => mask & 0x01FF3FFF,
        };
        self.ie = (self.ie & !m) | (value & m);
        self.check_for_interrupt(irq_disabled)
    }

    /// Whether an interrupt is to be taken now.
    pub fn check_for_interrupt(&self, irq_disabled: bool) -> (r: bool)
        ensures
            r == interrupt_ready(*self, irq_disabled),
    {
        self.ime != 0 && (self.ie & self.irf) != 0 && !irq_disabled
    }

    /// Acknowledges requests: each written one bit clears its request.
    pub fn set_irf(&mut self, mask: u32, value: u32)
        ensures
            *final(self) == (CpuRegs { irf: old(self).irf & !(value & mask), ..*old(self) }),
    {
        self.irf = self.irf & !(value & mask);
    }

    /// Writes the post boot flag: bit 0 can only be set; the ARM9 also has a
    /// writable bit 1.
    pub fn set_post_flg(&mut self, cpu: CpuType, value: u8)
        ensures
            *final(self) == (CpuRegs {
                post_flg: if cpu == CpuType::ARM9 {
                    ((old(self).post_flg | (value & 1)) & !2u8) | (value & 2)
                } else {
                    old(self).post_flg | (value & 1)
                },
                ..*old(self)
            }),
    {
        self.post_flg = self.post_flg | (value & 0x1);
        if cpu == CpuType::ARM9 {
            self.post_flg = (self.post_flg & !0x2u8) | (value & 0x2);
        }
    }

    /// Halts the processor for reason `bit`.
    pub fn halt(&mut self, bit: u8)
        requires
            bit < 8,
        ensures
            *final(self) == (CpuRegs { halt: old(self).halt | (1u8 << bit), ..*old(self) }),
    {
        self.halt = self.halt | (1u8 << bit);
    }

    /// Lifts halt reason `bit`.
    pub fn unhalt(&mut self, bit: u8)
        requires
            bit < 8,
        ensures
            *final(self) == (CpuRegs { halt: old(self).halt & !(1u8 << bit), ..*old(self) }),
    {
        self.halt = self.halt & !(1u8 << bit);
    }

    /// Whether the processor is halted for any reason.
    pub fn is_halted(&self) -> (r: bool)
        ensures
            r == (self.halt != 0),
    {
        self.halt != 0
    }

    /// Raises request `flag`. Where an enabled source is requesting, the
    /// result tells whether an interrupt is to be taken now; where it cannot
    /// be taken, the ARM7 (or an ARM9 with interrupts on) wakes from halt
    /// reason 0.
    pub fn send_interrupt(&mut self, cpu: CpuType, flag: InterruptFlag, irq_disabled: bool) -> (r: bool)
        ensures
            final(self).irf == old(self).irf | (1u32 << (flag_bit(flag) as u32)),
            r == interrupt_ready(*final(self), irq_disabled),
            *final(self) == (CpuRegs {
                irf: final(self).irf,
                halt: if final(self).ie & final(self).irf != 0 && !r && (cpu == CpuType::ARM7
                    || old(self).ime != 0) {
                    old(self).halt & !1u8
                } else {
                    old(self).halt
                },
                ..*old(self)
            }),
    {
        let b = flag.bit() as u32;
        self.irf = self.irf | (1u32 << b);
        if (self.ie & self.irf) != 0 {
            if self.ime != 0 && !irq_disabled {
                return true;
            } else if cpu == CpuType::ARM7 || self.ime != 0 {
                assert(1u8 << 0u8 == 1u8) by (bit_vector);
                self.unhalt(0);
            }
        }
        false
    }

    /// Writes the halt control register (bits 6 and 7).
    pub fn set_halt_cnt(&mut self, value: u8)
        ensures
            *final(self) == (CpuRegs { halt_cnt: value & 0xC0, ..*old(self) }),
    {
        self.halt_cnt = value & 0xC0;
    }

    /// The interrupt event: whether the interrupt is taken; if it is, the
    /// processor wakes from halt reason 0.
    pub fn on_interrupt_event(&mut self, irq_disabled: bool) -> (r: bool)
        ensures
            r == interrupt_ready(*old(self), irq_disabled),
            *final(self) == (CpuRegs {
                halt: if r {
                    old(self).halt & !1u8
                } else {
                    old(self).halt
                },
                ..*old(self)
            }),
    {
        let interrupted = self.check_for_interrupt(irq_disabled);
        if interrupted {
            assert(1u8 << 0u8 == 1u8) by (bit_vector);
            self.unhalt(0);
        }
        interrupted
    }
}

} // verus!
