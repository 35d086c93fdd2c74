use vstd::prelude::*;

verus! {

/// The two processors of the console.
#[derive(PartialEq, Eq, Structural, Debug, Clone, Copy)]
pub enum CpuType {
    ARM9,
    ARM7,
}

/// The number of a processor: 0 for the ARM9, 1 for the ARM7.
pub open spec fn cpu_index(cpu: CpuType) -> int {
    match cpu {
        CpuType::ARM9 => 0,
        CpuType::ARM7 => 1,
    }
}

impl CpuType {
    /// The number of the processor.
    pub fn index(self) -> (r: u8)
        ensures
            r == cpu_index(self),
    {
        match self {
            CpuType::ARM9 => 0,
            CpuType::ARM7 => 1,
        }
    }

    /// The other processor.
    pub open spec fn opposite(self) -> CpuType {
        match self {
            CpuType::ARM9 => CpuType::ARM7,
            CpuType::ARM7 => CpuType::ARM9,
        }
    }

    /// The other processor.
    pub fn other(self) -> (r: CpuType)
        ensures
            r == self.opposite(),
            r != self,
    {
        match self {
            CpuType::ARM9 => CpuType::ARM7,
            CpuType::ARM7 => CpuType::ARM9,
        }
    }
}

} // verus!
