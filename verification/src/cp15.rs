use vstd::prelude::*;

verus! {

/// The control register bits that software can change.
pub const CONTROL_RW_BITS_MASK: u32 = 0x000FF085;

/// The smallest tightly coupled memory.
pub const TCM_MIN_SIZE: u32 = 4 * 1024;

/// How a tightly coupled memory is mapped.
#[derive(Clone, Copy, Debug, PartialEq, Eq, Structural)]
pub enum TcmState {
    Disabled,
    RW,
    W,
}

/// The state of a memory from its enable bit and its load mode bit.
pub open spec fn tcm_state_of(enable: bool, load_mode: bool) -> TcmState {
    if !enable && !load_mode {
        TcmState::Disabled
    } else if enable && load_mode {
        TcmState::W
    } else {
        TcmState::RW
    }
}

/// Bit `b` of `v`.
pub open spec fn bit32(v: u32, b: u32) -> bool {
    (v >> b) & 1 == 1
}

/// The size of a tightly coupled memory whose register is `value`: 512
/// bytes shifted by the size field (bits 1 to 5), at least 4 KiB.
pub open spec fn tcm_size(value: u32) -> u32 {
    let s = 512u32 << ((value >> 1u32) & 0x1F);
    if s > TCM_MIN_SIZE {
        s
    } else {
        TCM_MIN_SIZE
    }
}

/// Which memory maps a register write changed.
#[derive(Clone, Copy, Debug, PartialEq, Eq, Structural)]
pub struct TcmUpdate {
    pub itcm: bool,
    pub dtcm: bool,
}

/// The ARM9 system control coprocessor.
pub struct Cp15 {
    pub control: u32,
    pub exception_addr: u32,
    pub dtcm: u32,
    pub dtcm_state: TcmState,
    pub dtcm_addr: u32,
    pub dtcm_size: u32,
    pub itcm: u32,
    pub itcm_state: TcmState,
    pub itcm_size: u32,
    pub proc_id: u32,
}

fn tcm_state(enable: bool, load_mode: bool) -> (r: TcmState)
    ensures
        r == tcm_state_of(enable, load_mode),
{
    if !enable && !load_mode {
        TcmState::Disabled
    } else if enable && load_mode {
        TcmState::W
    } else {
        TcmState::RW
    }
}

fn compute_tcm_size(value: u32) -> (r: u32)
    ensures
        r == tcm_size(value),
{
    let shift = (value >> 1u32) & 0x1F;
    assert(shift < 32) by (bit_vector)
        requires
            shift == (value >> 1u32) & 0x1F,
    ;
    let s = 512u32 << shift;
    if s > TCM_MIN_SIZE {
        s
    } else {
        TCM_MIN_SIZE
    }
}

impl Cp15 {
    /// The coprocessor at reset: write buffer, exception handling, 26-bit
    /// address faults and the abort model bits set, memories off.
    pub fn new() -> (r: Self)
        ensures
            r == (Cp15 {
                control: 0x78,
                exception_addr: 0,
                dtcm: 0,
                dtcm_state: TcmState::Disabled,
                dtcm_addr: 0,
                dtcm_size: 0,
                itcm: 0,
                itcm_state: TcmState::Disabled,
                itcm_size: 0,
                proc_id: 0,
            }),
    {
        Cp15 {
            control: 0x78,
            exception_addr: 0,
            dtcm: 0,
            dtcm_state: TcmState::Disabled,
            dtcm_addr: 0,
            dtcm_size: 0,
            itcm: 0,
            itcm_state: TcmState::Disabled,
            itcm_size: 0,
            proc_id: 0,
        }
    }

    /// Writes the control register: the vector base follows bit 13, the
    /// instruction memory bits 18 and 19, the data memory bits 16 and 17.
    pub fn set_control_reg(&mut self, value: u32) -> (r: TcmUpdate)
        ensures
            ({
                let c = (old(self).control & !CONTROL_RW_BITS_MASK) | (value & CONTROL_RW_BITS_MASK);
                let it = tcm_state_of(bit32(c, 18), bit32(c, 19));
                let dt = tcm_state_of(bit32(c, 16), bit32(c, 17));
                &&& *final(self) == (Cp15 {
                    control: c,
                    exception_addr: if bit32(c, 13) {
                        0xFFFF0000u32
                    } else {
                        0u32
                    },
                    itcm_state: it,
                    dtcm_state: dt,
                    ..*old(self)
                })
                &&& r == (TcmUpdate { itcm: it != old(self).itcm_state, dtcm: dt != old(self).dtcm_state })
            }),
    {
        let c = (self.control & !CONTROL_RW_BITS_MASK) | (value & CONTROL_RW_BITS_MASK);
        self.control = c;
        self.exception_addr = if (c >> 13u32) & 1 == 1 {
            0xFFFF0000
        } else {
            0x00000000
        };
        let new_itcm_state = tcm_state((c >> 18u32) & 1 == 1, (c >> 19u32) & 1 == 1);
        let new_dtcm_state = tcm_state((c >> 16u32) & 1 == 1, (c >> 17u32) & 1 == 1);
        let mut update = TcmUpdate { itcm: false, dtcm: false };
        if self.itcm_state != new_itcm_state {
            self.itcm_state = new_itcm_state;
            update.itcm = true;
        }
        if self.dtcm_state != new_dtcm_state {
            self.dtcm_state = new_dtcm_state;
            update.dtcm = true;
        }
        update
    }

    /// Writes the data memory region register: base from bits 12 to 31, size
    /// from the size field.
    pub fn set_dtcm(&mut self, value: u32)
        ensures
            *final(self) == (Cp15 {
                dtcm: value,
                dtcm_addr: (value >> 12u32) << 12u32,
                dtcm_size: tcm_size(value),
                ..*old(self)
            }),
    {
        self.dtcm = value;
        self.dtcm_addr = (value >> 12u32) << 12u32;
        self.dtcm_size = compute_tcm_size(value);
    }

    /// Writes the instruction memory region register: the size from the size
    /// field.
    pub fn set_itcm(&mut self, value: u32)
        ensures
            *final(self) == (Cp15 { itcm: value, itcm_size: tcm_size(value), ..*old(self) }),
    {
        self.itcm = value;
        self.itcm_size = compute_tcm_size(value);
    }

    /// Writes coprocessor register `reg` (opcode and register numbers packed
    /// as 0xNNMMOO); the result tells which memory maps changed. Unknown
    /// registers ignore the write.
    pub fn write(&mut self, reg: u32, value: u32) -> (r: TcmUpdate)
        ensures
            reg == 0x090100 ==> *final(self) == (Cp15 {
                dtcm: value,
                dtcm_addr: (value >> 12u32) << 12u32,
                dtcm_size: tcm_size(value),
                ..*old(self)
            }) && r == (TcmUpdate { itcm: false, dtcm: true }),
            reg == 0x090101 ==> *final(self) == (Cp15 { itcm: value, itcm_size: tcm_size(value), ..*old(self) })
                && r == (TcmUpdate { itcm: true, dtcm: false }),
            reg == 0x0D0001 || reg == 0x0D0101 ==> *final(self) == (Cp15 { proc_id: value, ..*old(self) })
                && r == (TcmUpdate { itcm: false, dtcm: false }),
            reg == 0x010000 ==> final(self).control == (old(self).control & !CONTROL_RW_BITS_MASK) | (
            value & CONTROL_RW_BITS_MASK),
            reg != 0x010000 && reg != 0x090100 && reg != 0x090101 && reg != 0x0D0001 && reg != 0x0D0101
                ==> *final(self) == *old(self) && r == (TcmUpdate { itcm: false, dtcm: false }),
    {
        if reg == 0x010000 {
            self.set_control_reg(value)
        } else if reg == 0x090100 {
            self.set_dtcm(value);
            TcmUpdate { itcm: false, dtcm: true }
        } else if reg == 0x090101 {
            self.set_itcm(value);
            TcmUpdate { itcm: true, dtcm: false }
        } else if reg == 0x0D0001 || reg == 0x0D0101 {
            self.proc_id = value;
            TcmUpdate { itcm: false, dtcm: false }
        } else {
            TcmUpdate { itcm: false, dtcm: false }
        }
    }

    /// Reads coprocessor register `reg`: the fixed main id and cache type, or
    /// what was written; unknown registers read zero.
    pub fn read(&self, reg: u32) -> (r: u32)
        ensures
            r == if reg == 0x000000 {
                0x41059461u32
            } else if reg == 0x000001 {
                0x0F0D2112u32
            } else if reg == 0x010000 {
                self.control
            } else if reg == 0x090100 {
                self.dtcm
            } else if reg == 0x090101 {
                self.itcm
            } else if reg == 0x0D0001 || reg == 0x0D0101 {
                self.proc_id
            } else {
                0u32
            },
    {
        if reg == 0x000000 {
            0x41059461
        } else if reg == 0x000001 {
            0x0F0D2112
        } else if reg == 0x010000 {
            self.control
        } else if reg == 0x090100 {
            self.dtcm
        } else if reg == 0x090101 {
            self.itcm
        } else if reg == 0x0D0001 || reg == 0x0D0101 {
            self.proc_id
        } else {
            0
        }
    }
}

} // verus!
