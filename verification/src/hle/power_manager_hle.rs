use vstd::prelude::*;

verus! {

/// Request bit: first word of a command.
pub const START_BIT: u32 = 0x02000000;
/// Request bit: last word of a command.
pub const END_BIT: u32 = 0x01000000;

/// The emulated ARM7 power management driver: the words of the command
/// being received.
pub struct PowerManagerHle {
    pub data: [u16; 16],
}

/// The command words after request `data`: cleared by a first word, then
/// the word stored at its sequence number (bits 16 to 19).
pub open spec fn pm_words(words: Seq<u16>, data: u32) -> Seq<u16> {
    let base = if data & START_BIT != 0 {
        Seq::new(16, |i: int| 0u16)
    } else {
        words
    };
    base.update(((data >> 16u32) & 0xF) as int, data as u16)
}

/// The reply to a complete command: sleep and utility commands, register
/// writes, and for the others a status word that carries the second
/// command word.
pub open spec fn pm_reply(words: Seq<u16>) -> u32 {
    let cmd = (words[0] >> 8u16) - 0x60;
    if cmd == 1 || cmd == 3 {
        0x0300E300
    } else if cmd == 4 {
        0x0300E400
    } else {
        0x03008000 | ((((words[1] as u32 + 0x70) as u32) & 0xFFu32) << 8u32)
    }
}

/// The sequence number of a request word (bits 16 to 19) is below 16.
pub proof fn lemma_seq_field(data: u32)
    by (bit_vector)
    ensures
        (data >> 16u32) & 0xF < 16,
{
}

impl PowerManagerHle {
    /// No command words.
    pub fn new() -> (r: Self)
        ensures
            r.data@ == Seq::new(16, |i: int| 0u16),
    {
        let r = PowerManagerHle { data: [0u16; 16] };
        assert(r.data@ =~= Seq::new(16, |i: int| 0u16));
        r
    }

    /// Takes a request word; the last word of a command gives the reply.
    pub fn ipc_recv(&mut self, data: u32) -> (r: Option<u32>)
        requires
            data & END_BIT != 0 ==> pm_words(old(self).data@, data)[0] >> 8u16 >= 0x60,
        ensures
            final(self).data@ == pm_words(old(self).data@, data),
            r == if data & END_BIT == 0 {
                None::<u32>
            } else {
                Some(pm_reply(final(self).data@))
            },
    {
        if data & START_BIT != 0 {
            self.data = [0u16; 16];
            assert(self.data@ =~= Seq::new(16, |i: int| 0u16));
        }
        let seq = ((data >> 16u32) & 0xF) as usize;
        proof {
            lemma_seq_field(data);
        }
        self.data[seq] = data as u16;
        if data & END_BIT == 0 {
            return None;
        }
        let cmd = (self.data[0] >> 8u16) - 0x60;
        if cmd == 1 || cmd == 3 {
            Some(0x0300E300)
        } else if cmd == 4 {
            Some(0x0300E400)
        } else {
            Some(0x03008000 | ((((self.data[1] as u32) + 0x70) & 0xFF) << 8u32))
        }
    }
}

} // verus!
