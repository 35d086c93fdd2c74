use vstd::prelude::*;

verus! {

/// The emulated ARM7 sound driver: which engine the game uses, -1 until its
/// first message says (0 the Nitro engine, 1 another).
pub struct SoundHle {
    pub engine: i8,
}

/// Where a sound message goes.
#[derive(Clone, Copy, Debug, PartialEq, Eq, Structural)]
pub struct SoundRoute {
    /// The Nitro engine is reset first.
    pub reset_nitro: bool,
    /// The message goes to the Nitro engine.
    pub to_nitro: bool,
}

impl SoundHle {
    /// No engine picked yet.
    pub fn new() -> (r: Self)
        ensures
            r.engine == -1,
    {
        SoundHle { engine: -1 }
    }

    /// Takes a sound message: the first one picks the Nitro engine when it
    /// is an address in main memory or above (0x02000000 on), which resets
    /// it; Nitro messages go to it.
    pub fn ipc_recv(&mut self, data: u32) -> (r: SoundRoute)
        ensures
            final(self).engine == if old(self).engine == -1 {
                if data >= 0x02000000 {
                    0i8
                } else {
                    1i8
                }
            } else {
                old(self).engine
            },
            r.reset_nitro == (old(self).engine == -1 && data >= 0x02000000),
            r.to_nitro == (final(self).engine == 0),
    {
        let mut reset = false;
        if self.engine == -1 {
            if data >= 0x02000000 {
                self.engine = 0;
                reset = true;
            } else {
                self.engine = 1;
            }
        }
        SoundRoute { reset_nitro: reset, to_nitro: self.engine == 0 }
    }
}

} // verus!
