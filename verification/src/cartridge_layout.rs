use vstd::prelude::*;

verus! {

/// The little-endian half word at byte `o`.
pub open spec fn le_u16(b: Seq<u8>, o: int) -> u16 {
    (b[o] as u16) | ((b[o + 1] as u16) << 8u16)
}

/// The little-endian word at byte `o`.
pub open spec fn le_u32(b: Seq<u8>, o: int) -> u32 {
    (b[o] as u32) | ((b[o + 1] as u32) << 8u32) | ((b[o + 2] as u32) << 16u32) | ((b[o + 3] as u32)
        << 24u32)
}

/// Reads the little-endian half word at byte `o`.
pub fn read_u16_le(raw: &[u8], o: usize) -> (r: u16)
    requires
        o + 2 <= raw@.len(),
    ensures
        r == le_u16(raw@, o as int),
{
    (raw[o] as u16) | ((raw[o + 1] as u16) << 8u16)
}

/// Reads the little-endian word at byte `o`.
pub fn read_u32_le(raw: &[u8], o: usize) -> (r: u32)
    requires
        o + 4 <= raw@.len(),
    ensures
        r == le_u32(raw@, o as int),
{
    (raw[o] as u32) | ((raw[o + 1] as u32) << 8u32) | ((raw[o + 2] as u32) << 16u32) | ((raw[o
        + 3] as u32) << 24u32)
}

/// Copies the `N` bytes from byte `o` on.
pub fn read_bytes<const N: usize>(raw: &[u8], o: usize) -> (r: [u8; N])
    requires
        o + N <= raw@.len(),
    ensures
        r@ == raw@.subrange(o as int, o + N),
{
    let n = raw.len();
    let mut a = [0u8; N];
    let mut i: usize = 0;
    while i < N
        invariant
            i <= N,
            n == raw@.len(),
            o + N <= n,
            a@.len() == N,
            forall|k: int| 0 <= k < i ==> a@[k] == raw@[o + k],
        decreases N - i,
    {
        a[i] = raw[o + i];
        i = i + 1;
    }
    assert(a@ =~= raw@.subrange(o as int, o + N));
    a
}

/// Where a processor's boot code lies in the image and where it goes in memory.
pub struct ArmValues {
    pub rom_offset: u32,
    pub entry_address: u32,
    pub ram_address: u32,
    pub size: u32,
}

impl ArmValues {
    /// The record as it lies in the 16 bytes from byte `o`.
    pub open spec fn spec_decode(raw: Seq<u8>, o: int) -> ArmValues {
        ArmValues {
            rom_offset: le_u32(raw, o),
            entry_address: le_u32(raw, o + 4),
            ram_address: le_u32(raw, o + 8),
            size: le_u32(raw, o + 12),
        }
    }

    /// Reads the record from the 16 bytes from byte `o`.
    pub fn decode(raw: &[u8], o: usize) -> (r: ArmValues)
        requires
            o + 16 <= raw.len(),
        ensures
            r == ArmValues::spec_decode(raw@, o as int),
    {
        ArmValues {
            rom_offset: read_u32_le(raw, o),
            entry_address: read_u32_le(raw, o + 4),
            ram_address: read_u32_le(raw, o + 8),
            size: read_u32_le(raw, o + 12),
        }
    }
}

/// Where a processor's overlay table lies in the image.
pub struct ArmOverlay {
    pub overlay_offset: u32,
    pub overlay_size: u32,
}

impl ArmOverlay {
    /// Reads the record from the 8 bytes from byte `o`.
    pub fn decode(raw: &[u8], o: usize) -> (r: ArmOverlay)
        requires
            o + 8 <= raw.len(),
        ensures
            r.overlay_offset == le_u32(raw@, o as int),
            r.overlay_size == le_u32(raw@, o + 4),
    {
        ArmOverlay { overlay_offset: read_u32_le(raw, o), overlay_size: read_u32_le(raw, o + 4) }
    }
}

} // verus!
