use vstd::prelude::*;
use crate::hle::power_manager_hle::{lemma_seq_field, pm_words, END_BIT, START_BIT};

verus! {

/// The emulated ARM7 firmware (NVRAM) driver: the words of the command
/// being received.
pub struct FirmwareHle {
    pub data: [u16; 16],
}

/// What the firmware driver does with a complete command.
#[derive(Clone, Copy, Debug, PartialEq, Eq, Structural)]
pub enum FirmwareAction {
    Nothing,
    /// Replies with this word.
    Reply(u32),
    /// Copies `len` firmware bytes from `src` (wrapping around the image)
    /// to `dst` in main memory, then replies 0x0300A300.
    Copy { src: u32, len: u32, dst: u32 },
}

/// Whether an address lies in main memory.
pub open spec fn in_main_memory(addr: u32) -> bool {
    0x02000000 <= addr < 0x02800000
}

/// The action of a complete command: the command number (high byte of the
/// first word, less 0x20) and its address words.
pub open spec fn firmware_action(w: Seq<u16>) -> FirmwareAction {
    let cmd = (w[0] >> 8u16) - 0x20;
    if cmd == 0 {
        FirmwareAction::Reply(0x0300A000)
    } else if cmd == 1 {
        FirmwareAction::Reply(0x0300A100)
    } else if cmd == 2 {
        let addr = (((w[0] as u32) & 0xFF) << 24u32) | ((w[1] as u32) << 8u32) | (((w[2] as u32) >> 8u32) & 0xFF);
        FirmwareAction::Reply(if in_main_memory(addr) { 0x0300A200 } else { 0x0300A202 })
    } else if cmd == 3 {
        let dst = ((w[4] as u32) << 16u32) | (w[5] as u32);
        if in_main_memory(dst) {
            FirmwareAction::Copy {
                src: (((w[0] as u32) & 0xFF) << 16u32) | (w[1] as u32),
                len: ((w[2] as u32) << 16u32) | (w[3] as u32),
                dst,
            }
        } else {
            FirmwareAction::Reply(0x0300A302)
        }
    } else if cmd == 5 {
        let addr = ((w[3] as u32) << 16u32) | (w[4] as u32);
        FirmwareAction::Reply(if in_main_memory(addr) { 0x0300A500 } else { 0x0300A502 })
    } else {
        FirmwareAction::Nothing
    }
}

impl FirmwareHle {
    /// No command words.
    pub fn new() -> (r: Self)
        ensures
            r.data@ == Seq::new(16, |i: int| 0u16),
    {
        let r = FirmwareHle { data: [0u16; 16] };
        assert(r.data@ =~= Seq::new(16, |i: int| 0u16));
        r
    }

    /// Takes a request word; the last word of a command gives the action.
    pub fn ipc_recv(&mut self, data: u32) -> (r: FirmwareAction)
        requires
            data & END_BIT != 0 ==> pm_words(old(self).data@, data)[0] >> 8u16 >= 0x20,
        ensures
            final(self).data@ == pm_words(old(self).data@, data),
            r == if data & END_BIT == 0 {
                FirmwareAction::Nothing
            } else {
                firmware_action(final(self).data@)
            },
    {
        if data & START_BIT != 0 {
            self.data = [0u16; 16];
            assert(self.data@ =~= Seq::new(16, |i: int| 0u16));
        }
        let seq = ((data >> 16u32) & 0xF) as usize;
        proof {
            lemma_seq_field(data);
        }
        self.data[seq] = data as u16;
        if data & END_BIT == 0 {
            return FirmwareAction::Nothing;
        }
        let w = self.data;
        let cmd = (w[0] >> 8u16) - 0x20;
        if cmd == 0 {
            FirmwareAction::Reply(0x0300A000)
        } else if cmd == 1 {
            FirmwareAction::Reply(0x0300A100)
        } else if cmd == 2 {
            let addr = (((w[0] as u32) & 0xFF) << 24u32) | ((w[1] as u32) << 8u32) | (((w[2] as u32) >> 8u32) & 0xFF);
            FirmwareAction::Reply(if 0x02000000 <= addr && addr < 0x02800000 { 0x0300A200 } else { 0x0300A202 })
        } else if cmd == 3 {
            let dst = ((w[4] as u32) << 16u32) | (w[5] as u32);
            if 0x02000000 <= dst && dst < 0x02800000 {
                FirmwareAction::Copy {
                    src: (((w[0] as u32) & 0xFF) << 16u32) | (w[1] as u32),
                    len: ((w[2] as u32) << 16u32) | (w[3] as u32),
                    dst,
                }
            } else {
                FirmwareAction::Reply(0x0300A302)
            }
        } else if cmd == 5 {
            let addr = ((w[3] as u32) << 16u32) | (w[4] as u32);
            FirmwareAction::Reply(if 0x02000000 <= addr && addr < 0x02800000 { 0x0300A500 } else { 0x0300A502 })
        } else {
            FirmwareAction::Nothing
        }
    }
}

} // verus!
