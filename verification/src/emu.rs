use vstd::prelude::*;

verus! {

/// The version of the Nitro SDK a game was built with: release step (bits 0
/// to 15), minor (16 to 23) and major version (24 to 31); all ones where it
/// is not known.
#[derive(Clone, Copy, Debug, PartialEq, Eq, Structural)]
pub struct NitroSdkVersion(pub u32);

impl NitroSdkVersion {
    /// The major version.
    pub open spec fn spec_major(self) -> u32 {
        self.0 >> 24u32
    }

    /// The major version.
    pub fn major(self) -> (r: u8)
        ensures
            r == self.spec_major(),
    {
        let v = self.0;
        proof {
            lemma_top_byte(v);
        }
        (v >> 24u32) as u8
    }

    /// Whether the version is known.
    pub fn is_valid(self) -> (r: bool)
        ensures
            r == (self.0 != u32::MAX),
    {
        self.0 != u32::MAX
    }

    /// Whether the game's file system code relies on the emulator noticing
    /// overlay loads: SDK versions before 5.
    pub fn rely_on_fs_invalidation(self) -> (r: bool)
        ensures
            r == (self.0 != u32::MAX && self.spec_major() < 5),
    {
        self.is_valid() && self.major() < 5
    }

    /// Whether the game was built with the DSi (TWL) SDK: version 5 and up.
    pub fn is_twl_sdk(self) -> (r: bool)
        ensures
            r == (self.0 != u32::MAX && self.spec_major() >= 5),
    {
        self.is_valid() && self.major() >= 5
    }
}

proof fn lemma_top_byte(v: u32)
    by (bit_vector)
    ensures
        v >> 24u32 < 256,
{
}

impl Default for NitroSdkVersion {
    /// Not known.
    fn default() -> (r: Self)
        ensures
            r.0 == u32::MAX,
    {
        NitroSdkVersion(u32::MAX)
    }
}

} // verus!
