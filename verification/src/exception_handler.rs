use vstd::prelude::*;
use crate::cpu_type::CpuType;

verus! {

/// The exception vectors, each at its own address.
#[derive(Clone, Copy, Debug, PartialEq, Eq, Structural)]
pub enum ExceptionVector {
    Reset,
    UndefinedInstruction,
    SoftwareInterrupt,
    PrefetchAbort,
    DataAbort,
    AddressExceeds26Bit,
    NormalInterrupt,
    FastInterrupt,
}

/// The address of a vector.
pub open spec fn vector_address(v: ExceptionVector) -> u32 {
    match v {
        ExceptionVector::Reset => 0x0,
        ExceptionVector::UndefinedInstruction => 0x4,
        ExceptionVector::SoftwareInterrupt => 0x8,
        ExceptionVector::PrefetchAbort => 0xC,
        ExceptionVector::DataAbort => 0x10,
        ExceptionVector::AddressExceeds26Bit => 0x14,
        ExceptionVector::NormalInterrupt => 0x18,
        ExceptionVector::FastInterrupt => 0x1C,
    }
}

/// The processor mode that a vector enters: supervisor, undefined, abort,
/// IRQ or FIQ.
pub open spec fn vector_mode(v: ExceptionVector) -> u32 {
    match v {
        ExceptionVector::Reset => 0x13,
        ExceptionVector::UndefinedInstruction => 0x1B,
        ExceptionVector::SoftwareInterrupt => 0x13,
        ExceptionVector::PrefetchAbort => 0x17,
        ExceptionVector::DataAbort => 0x17,
        ExceptionVector::AddressExceeds26Bit => 0x13,
        ExceptionVector::NormalInterrupt => 0x12,
        ExceptionVector::FastInterrupt => 0x11,
    }
}

/// Processor modes by vector number (address / 4).
pub const MODES: [u8; 8] = [0x13, 0x1B, 0x13, 0x17, 0x17, 0x13, 0x12, 0x11];

impl ExceptionVector {
    /// The address of the vector.
    pub fn address(self) -> (r: u32)
        ensures
            r == vector_address(self),
    {
        match self {
            ExceptionVector::Reset => 0x0,
            ExceptionVector::UndefinedInstruction => 0x4,
            ExceptionVector::SoftwareInterrupt => 0x8,
            ExceptionVector::PrefetchAbort => 0xC,
            ExceptionVector::DataAbort => 0x10,
            ExceptionVector::AddressExceeds26Bit => 0x14,
            ExceptionVector::NormalInterrupt => 0x18,
            ExceptionVector::FastInterrupt => 0x1C,
        }
    }

    /// The processor mode that the vector enters, from the table of modes.
    pub fn mode(self) -> (r: u8)
        ensures
            r == vector_mode(self),
    {
        let modes = MODES;
        let i = (self.address() / 4) as usize;
        assert(modes@ == seq![0x13u8, 0x1B, 0x13, 0x17, 0x17, 0x13, 0x12, 0x11]);
        modes[i]
    }
}

/// The register state on entry to an exception handler.
#[derive(Clone, Copy, Debug, PartialEq, Eq, Structural)]
pub struct ExceptionEntry {
    pub cpsr: u32,
    pub lr: u32,
    pub pc: u32,
}

/// The status register on entry to a handler: the vector's mode, ARM state,
/// FIQ and IRQ masked; the other bits kept.
pub open spec fn entry_cpsr(cpsr: u32, v: ExceptionVector) -> u32 {
    (cpsr & !0xFFu32) | vector_mode(v) | 0xC0
}

/// How an exception is taken: by the high level BIOS routines (the ARM7, or
/// an ARM9 whose vectors are high), or by entering the handler at the
/// vector.
#[derive(Clone, Copy, Debug, PartialEq, Eq, Structural)]
pub enum ExceptionRoute {
    BiosSwi,
    BiosInterrupt,
    Unhandled,
    Enter(ExceptionEntry),
}

/// How `cpu` takes exception `vector`, from its status register `cpsr`
/// and program counter `pc`; `exception_addr` is where the ARM9's vectors
/// are.
pub fn route(cpu: CpuType, exception_addr: u32, vector: ExceptionVector, cpsr: u32, pc: u32) -> (r: ExceptionRoute)
    requires
        cpu == CpuType::ARM9 && exception_addr == 0 ==> vector != ExceptionVector::SoftwareInterrupt
            && pc + 4 <= u32::MAX,
    ensures
        cpu == CpuType::ARM7 || exception_addr != 0 ==> r == match vector {
            ExceptionVector::SoftwareInterrupt => ExceptionRoute::BiosSwi,
            ExceptionVector::NormalInterrupt => ExceptionRoute::BiosInterrupt,
            _ => ExceptionRoute::Unhandled,
        },
        cpu == CpuType::ARM9 && exception_addr == 0 ==> r == ExceptionRoute::Enter(
            ExceptionEntry { cpsr: entry_cpsr(cpsr, vector), lr: (pc + 4) as u32, pc: vector_address(vector) },
        ),
{
    if cpu == CpuType::ARM7 || exception_addr != 0 {
        match vector {
            ExceptionVector::SoftwareInterrupt => ExceptionRoute::BiosSwi,
            ExceptionVector::NormalInterrupt => ExceptionRoute::BiosInterrupt,
            _ => ExceptionRoute::Unhandled,
        }
    } else {
        let mode = vector.mode() as u32;
        ExceptionRoute::Enter(
            ExceptionEntry { cpsr: (cpsr & !0xFFu32) | mode | 0xC0, lr: pc + 4, pc: vector.address() },
        )
    }
}

} // verus!
