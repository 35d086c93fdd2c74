use vstd::prelude::*;

verus! {

/// What the touch screen driver does with a request or a line.
#[derive(Clone, Copy, Debug, PartialEq, Eq, Structural)]
pub enum TouchscreenAction {
    Nothing,
    /// Replies with this word.
    Reply(u32),
    /// Samples the touch screen into the shared area, then replies.
    SampleAndReply(u32),
}

/// The shared touch word after a sample: pressed, the coordinates (12 bits
/// each) and the touched flag (bit 24) with the other flags cleared; not
/// pressed, the untouched flags (bits 25 and 26) with the coordinate bits
/// kept.
pub open spec fn touch_sample_word(ts: u32, pressed: bool, x: u16, y: u16) -> u32 {
    if pressed {
        (ts & 0xF9000000) | ((x & 0xFFF) as u32) | (((y & 0xFFF) as u32) << 12u32) | 0x01000000
    } else {
        (ts & 0xFE000000) | 0x06000000
    }
}

/// The shared touch word after a sample.
pub fn touch_sample(ts: u32, pressed: bool, x: u16, y: u16) -> (r: u32)
    ensures
        r == touch_sample_word(ts, pressed, x, y),
{
    if pressed {
        let mut t = ts & 0xF9000000;
        t = t | ((x & 0xFFF) as u32);
        t = t | (((y & 0xFFF) as u32) << 12u32);
        t | 0x01000000
    } else {
        (ts & 0xFE000000) | 0x06000000
    }
}

/// The line on which sample `i` of `num` is taken, spread over the 263
/// lines of a frame from line `offset` on.
pub open spec fn sample_line(offset: u16, i: int, num: u16) -> int {
    offset + ((i * 263 / (num as int)) % 263)
}

/// The emulated ARM7 touch screen driver.
pub struct TouchscreenHle {
    status: i32,
    data: [u16; 16],
    num_samples: u16,
    sample_pos: [u16; 4],
}

impl TouchscreenHle {
    /// At most four sampling lines are set.
    #[verifier::type_invariant]
    spec fn inv(self) -> bool {
        self.num_samples <= 4
    }

    /// The driver state: 0 idle, 2 sampling on set lines.
    pub closed spec fn spec_status(&self) -> i32 {
        self.status
    }

    /// The words of the request being received.
    pub closed spec fn spec_data(&self) -> Seq<u16> {
        self.data@
    }

    /// The lines on which samples are taken.
    pub closed spec fn spec_sample_lines(&self) -> Seq<u16> {
        self.sample_pos@.take(self.num_samples as int)
    }

    /// An idle driver.
    pub fn new() -> (r: Self)
        ensures
            r.spec_status() == 0,
            r.spec_data() == Seq::new(16, |i: int| 0u16),
            r.spec_sample_lines() == Seq::<u16>::empty(),
    {
        let r = TouchscreenHle { status: 0, data: [0u16; 16], num_samples: 0, sample_pos: [0u16; 4] };
        assert(r.data@ =~= Seq::new(16, |i: int| 0u16));
        assert(r.sample_pos@.take(0) =~= Seq::<u16>::empty());
        r
    }

    /// Takes a request word (the sequence number in bits 16 to 19, a first
    /// word flag in bit 25, a last word flag in bit 24). A complete request
    /// with command 0 or 3 samples at once; 1 sets 1 to 4 sampling lines
    /// from line `data[1]` (below 263) on; 2 stops sampling.
    pub fn ipc_recv(&mut self, data: u32) -> (r: TouchscreenAction)
        ensures
            ({
                let base = if data & 0x0200_0000 != 0 {
                    Seq::new(16, |i: int| 0u16)
                } else {
                    old(self).spec_data()
                };
                let words = base.update(((data >> 16u32) & 0xF) as int, data as u16);
                let cmd = words[0] >> 8u16;
                let num = words[0] & 0xFF;
                let offset = words[1];
                &&& final(self).spec_data() == words
                &&& if data & 0x0100_0000 == 0 {
                    &&& r == TouchscreenAction::Nothing
                    &&& final(self).spec_status() == old(self).spec_status()
                    &&& final(self).spec_sample_lines() == old(self).spec_sample_lines()
                } else if cmd == 0 || cmd == 3 {
                    &&& r == TouchscreenAction::SampleAndReply(if cmd == 0 {
                        0x03008000u32
                    } else {
                        0x03008300u32
                    })
                    &&& final(self).spec_status() == old(self).spec_status()
                    &&& final(self).spec_sample_lines() == old(self).spec_sample_lines()
                } else if cmd == 1 {
                    if old(self).spec_status() != 0 || num == 0 || num > 4 || offset >= 263 {
                        &&& r == TouchscreenAction::Reply(if old(self).spec_status() != 0 {
                            0x03008103u32
                        } else {
                            0x03008102u32
                        })
                        &&& final(self).spec_status() == old(self).spec_status()
                        &&& final(self).spec_sample_lines() == old(self).spec_sample_lines()
                    } else {
                        &&& r == TouchscreenAction::Reply(0x03008100)
                        &&& final(self).spec_status() == 2
                        &&& final(self).spec_sample_lines().len() == num
                        &&& forall|i: int| 0 <= i < num ==> final(self).spec_sample_lines()[i] == sample_line(offset, i, num)
                    }
                } else if cmd == 2 {
                    if old(self).spec_status() != 2 {
                        &&& r == TouchscreenAction::Reply(0x03008203)
                        &&& final(self).spec_status() == old(self).spec_status()
                        &&& final(self).spec_sample_lines() == old(self).spec_sample_lines()
                    } else {
                        &&& r == TouchscreenAction::Reply(0x03008200)
                        &&& final(self).spec_status() == 0
                        &&& final(self).spec_sample_lines() == Seq::<u16>::empty()
                    }
                } else {
                    &&& r == TouchscreenAction::Nothing
                    &&& final(self).spec_status() == old(self).spec_status()
                    &&& final(self).spec_sample_lines() == old(self).spec_sample_lines()
                }
            }),
    {
        proof {
            use_type_invariant(&*self);
        }
        if data & 0x0200_0000 != 0 {
            self.data = [0u16; 16];
            assert(self.data@ =~= Seq::new(16, |i: int| 0u16));
        }
        let seq = ((data >> 16u32) & 0xF) as usize;
        assert(seq < 16) by (bit_vector)
            requires
                seq == ((data >> 16u32) & 0xF) as usize,
        ;
        self.data[seq] = data as u16;
        if data & 0x0100_0000 == 0 {
            return TouchscreenAction::Nothing;
        }
        let cmd = self.data[0] >> 8u16;
        if cmd == 0 {
            TouchscreenAction::SampleAndReply(0x03008000)
        } else if cmd == 1 {
            if self.status != 0 {
                return TouchscreenAction::Reply(0x03008103);
            }
            let num = self.data[0] & 0xFF;
            if num == 0 || num > 4 {
                return TouchscreenAction::Reply(0x03008102);
            }
            let offset = self.data[1];
            if offset >= 263 {
                return TouchscreenAction::Reply(0x03008102);
            }
            self.status = 1;
            self.num_samples = num;
            let ghost d = self.data@;
            let mut i: u16 = 0;
            while i < num
                invariant
                    1 <= num <= 4,
                    offset < 263,
                    self.num_samples == num,
                    self.status == 1,
                    self.data@ == d,
                    i <= num,
                    forall|k: int| 0 <= k < i ==> self.sample_pos@[k] == sample_line(offset, k, num),
                decreases num - i,
            {
                let y_pos = offset + ((i * 263 / num) % 263);
                self.sample_pos[i as usize] = y_pos;
                i = i + 1;
            }
            self.status = 2;
            TouchscreenAction::Reply(0x03008100)
        } else if cmd == 2 {
            if self.status != 2 {
                return TouchscreenAction::Reply(0x03008203);
            }
            self.status = 3;
            self.num_samples = 0;
            self.status = 0;
            assert(self.sample_pos@.take(0) =~= Seq::<u16>::empty());
            TouchscreenAction::Reply(0x03008200)
        } else if cmd == 3 {
            TouchscreenAction::SampleAndReply(0x03008300)
        } else {
            TouchscreenAction::Nothing
        }
    }

    /// On line `v_count`: the first sampling line equal to it takes a
    /// sample, answered with its number.
    pub fn on_scanline(&self, v_count: u16) -> (r: TouchscreenAction)
        ensures
            ({
                let lines = self.spec_sample_lines();
                if exists|i: int| 0 <= i < lines.len() && lines[i] == v_count {
                    exists|i: int|
                        0 <= i < lines.len() && lines[i] == v_count && (forall|j: int|
                            0 <= j < i ==> lines[j] != v_count) && r == TouchscreenAction::SampleAndReply(
                            (0x03009000 + i) as u32,
                        )
                } else {
                    r == TouchscreenAction::Nothing
                }
            }),
    {
        proof {
            use_type_invariant(self);
        }
        let n = self.num_samples as usize;
        let mut i: usize = 0;
        while i < n
            invariant
                n == self.num_samples,
                n <= 4,
                i <= n,
                forall|j: int| 0 <= j < i ==> self.spec_sample_lines()[j] != v_count,
            decreases n - i,
        {
            if v_count == self.sample_pos[i] {
                assert(self.spec_sample_lines()[i as int] == v_count);
                let k = i as u32;
                assert(0x03009000u32 | k == 0x03009000u32 + k) by (bit_vector)
                    requires
                        k < 4,
                ;
                return TouchscreenAction::SampleAndReply(0x03009000 | k);
            }
            i = i + 1;
        }
        TouchscreenAction::Nothing
    }
}

} // verus!
