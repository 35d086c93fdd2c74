use vstd::prelude::*;
use crate::hle::power_manager_hle::{lemma_seq_field, pm_words, END_BIT, START_BIT};

verus! {

/// The ARM7 clock rate the microphone rates are given against.
pub const ARM7_CLOCK: u32 = 33513982;

/// A microphone sample in the format of sample flags `flags`: 16-bit
/// (bit 0) or 8-bit (the high byte), signed (bit 1) or offset by half the
/// range.
pub open spec fn adjusted_sample(flags: u8, sample: i16) -> u16 {
    if flags & 1 != 0 {
        if flags & 2 != 0 {
            sample as u16
        } else {
            (sample as i32 + 0x8000) as i16 as u16
        }
    } else if flags & 2 != 0 {
        (sample >> 8u32) as i8 as u16
    } else {
        ((sample >> 8u32) + 0x80) as u8 as u16
    }
}

proof fn lemma_high_byte(s: i16)
    by (bit_vector)
    ensures
        -128 <= (s >> 8u32) <= 127,
{
}

/// Converts a microphone sample to the format of sample flags `flags`.
pub fn adjust_sample(flags: u8, sample: i16) -> (r: u16)
    ensures
        r == adjusted_sample(flags, sample),
{
    if flags & 1 != 0 {
        if flags & 2 != 0 {
            sample as u16
        } else {
            (sample as i32 + 0x8000) as i16 as u16
        }
    } else if flags & 2 != 0 {
        (sample >> 8u32) as i8 as u16
    } else {
        proof {
            lemma_high_byte(sample);
        }
        ((sample >> 8u32) + 0x80) as u8 as u16
    }
}

/// The emulated ARM7 microphone driver: the words of the command being
/// received, and the sampling set up by the last start: sample flags (bit 4
/// repeats), buffer, buffer size in samples, samples to take and samples
/// taken.
pub struct MicHle {
    pub data: [u16; 16],
    pub sample_flags: u8,
    pub sample_buf: u32,
    pub sample_size: u32,
    pub sample_max_count: u32,
    pub sample_count: u32,
}

/// What the microphone driver does with a complete command.
#[derive(Clone, Copy, Debug, PartialEq, Eq, Structural)]
pub enum MicAction {
    Nothing,
    /// Takes one sample now, in the format of `flags`, writes it to the
    /// shared sample word and replies 0x300c000.
    Sample { flags: u8 },
    /// Starts sampling: schedules the first sample, clears the shared
    /// address word and replies 0x300c100.
    Start,
    /// Replies with this word.
    Reply(u32),
    /// An unknown command word.
    Unknown(u32),
}

/// The sampling rate a command gives as a period in ARM7 cycles (two
/// words).
pub open spec fn mic_rate(hi: u16, lo: u16) -> int {
    ARM7_CLOCK as int / (((hi as u32) << 16u32) | (lo as u32)) as int
}

/// How many samples of a buffer of `size` samples the input at `in_rate`
/// gives at rate `rate`.
pub open spec fn mic_max_count(size: u32, in_rate: u32, rate: int) -> u32 {
    (size as int * in_rate as int / rate) as u32
}

/// Whether the rate words of a complete command give a usable rate.
pub open spec fn mic_rate_ok(hi: u16, lo: u16) -> bool {
    (((hi as u32) << 16u32) | (lo as u32)) != 0 && mic_rate(hi, lo) != 0
}

impl MicHle {
    /// No command and no sampling.
    pub fn new() -> (r: Self)
        ensures
            r.data@ == Seq::new(16, |i: int| 0u16),
            r.sample_flags == 0 && r.sample_buf == 0 && r.sample_size == 0 && r.sample_max_count == 0
                && r.sample_count == 0,
    {
        let r = MicHle { data: [0u16; 16], sample_flags: 0, sample_buf: 0, sample_size: 0, sample_max_count: 0, sample_count: 0 };
        assert(r.data@ =~= Seq::new(16, |i: int| 0u16));
        r
    }

    /// Takes a request word; the last word of a command acts: 0x40 samples
    /// once; 0x41 starts sampling into a buffer (flags in the low byte,
    /// buffer, size in bytes and rate as word pairs); 0x42 stops; 0x43 sets
    /// a new rate. `in_rate` is the rate of the host's microphone input.
    pub fn ipc_recv(&mut self, data: u32, in_rate: u32) -> (r: MicAction)
        requires
            data & END_BIT != 0 ==> ({
                let w = pm_words(old(self).data@, data);
                &&& (w[0] >> 8u16 == 0x41 ==> mic_rate_ok(w[5], w[6]))
                &&& (w[0] >> 8u16 == 0x43 ==> mic_rate_ok(w[1], w[2]))
            }),
        ensures
            final(self).data@ == pm_words(old(self).data@, data),
            ({
                let w = final(self).data@;
                let cmd = w[0] >> 8u16;
                if data & END_BIT == 0 {
                    &&& r == MicAction::Nothing
                    &&& *final(self) == (MicHle { data: final(self).data, ..*old(self) })
                } else if cmd == 0x40 {
                    &&& r == MicAction::Sample { flags: (w[0] as u8) & 3 }
                    &&& *final(self) == (MicHle { data: final(self).data, ..*old(self) })
                } else if cmd == 0x41 {
                    let flags = w[0] as u8;
                    let total = ((w[3] as u32) << 16u32) | (w[4] as u32);
                    let size = if flags & 1 != 0 {
                        total >> 1u32
                    } else {
                        total
                    };
                    &&& r == MicAction::Start
                    &&& final(self).sample_flags == flags
                    &&& final(self).sample_buf == (((w[1] as u32) << 16u32) | (w[2] as u32))
                    &&& final(self).sample_size == size
                    &&& final(self).sample_count == 0
                    &&& final(self).sample_max_count == mic_max_count(size, in_rate, mic_rate(w[5], w[6]))
                } else if cmd == 0x42 {
                    &&& r == MicAction::Reply(0x300c200)
                    &&& *final(self) == (MicHle { data: final(self).data, sample_size: 0, ..*old(self) })
                } else if cmd == 0x43 {
                    &&& r == MicAction::Reply(0x300c300)
                    &&& *final(self) == (MicHle {
                        data: final(self).data,
                        sample_count: 0,
                        sample_max_count: mic_max_count(old(self).sample_size, in_rate, mic_rate(w[1], w[2])),
                        ..*old(self)
                    })
                } else {
                    &&& r == MicAction::Unknown(data)
                    &&& *final(self) == (MicHle { data: final(self).data, ..*old(self) })
                }
            }),
    {
        if data & START_BIT != 0 {
            self.data = [0u16; 16];
            assert(self.data@ =~= Seq::new(16, |i: int| 0u16));
        }
        let seq = ((data >> 16u32) & 0xF) as usize;
        proof {
            lemma_seq_field(data);
        }
        self.data[seq] = data as u16;
        if data & END_BIT == 0 {
            return MicAction::Nothing;
        }
        let w = self.data;
        let cmd = w[0] >> 8u16;
        if cmd == 0x40 {
            MicAction::Sample { flags: (w[0] as u8) & 3 }
        } else if cmd == 0x41 {
            let flags = w[0] as u8;
            let buf = ((w[1] as u32) << 16u32) | (w[2] as u32);
            let size = ((w[3] as u32) << 16u32) | (w[4] as u32);
            let rate = ARM7_CLOCK / (((w[5] as u32) << 16u32) | (w[6] as u32));
            self.sample_flags = flags;
            self.sample_buf = buf;
            self.sample_size = if flags & 1 != 0 {
                size >> 1u32
            } else {
                size
            };
            self.sample_count = 0;
            proof {
                lemma_mul_fits(self.sample_size, in_rate);
            }
            let max = (self.sample_size as u64 * in_rate as u64) / rate as u64;
            self.sample_max_count = max as u32;
            MicAction::Start
        } else if cmd == 0x42 {
            self.sample_size = 0;
            MicAction::Reply(0x300c200)
        } else if cmd == 0x43 {
            let rate = ARM7_CLOCK / (((w[1] as u32) << 16u32) | (w[2] as u32));
            proof {
                lemma_mul_fits(self.sample_size, in_rate);
            }
            let max = (self.sample_size as u64 * in_rate as u64) / rate as u64;
            self.sample_count = 0;
            self.sample_max_count = max as u32;
            MicAction::Reply(0x300c300)
        } else {
            MicAction::Unknown(data)
        }
    }
}

proof fn lemma_mul_fits(a: u32, b: u32)
    ensures
        (a as int) * (b as int) <= u64::MAX,
{
    assert((a as int) * (b as int) <= (u32::MAX as int) * (u32::MAX as int)) by (nonlinear_arith);
}

/// What a sampling event does.
#[derive(Clone, Copy, Debug, PartialEq, Eq, Structural)]
pub enum MicSample {
    /// Sampling is off.
    Off,
    /// Writes `value` (16 bits wide or 8) at `addr` and to the shared sample
    /// word, and `addr` to the shared address word; replies 0x300d100 when
    /// the buffer is `done`; schedules the next sample when `again`.
    Write { addr: u32, value: u16, wide: bool, done: bool, again: bool },
}

impl MicHle {
    /// Takes microphone sample `sample`: it goes to the buffer position that
    /// the samples taken so far reach, scaled from the samples to take to the
    /// buffer size; after the last sample the buffer is done and sampling
    /// starts over if it repeats (bit 4 of the flags).
    pub fn sample_event(&mut self, sample: i16) -> (r: MicSample)
        requires
            old(self).sample_size != 0 ==> ({
                let s = *old(self);
                &&& s.sample_max_count != 0
                &&& s.sample_count as int * s.sample_size as int <= u32::MAX
                &&& s.sample_buf as int + ((s.sample_count as int * s.sample_size as int / s.sample_max_count as int) * if s.sample_flags & 1 != 0 { 2int } else { 1 }) <= u32::MAX
                &&& s.sample_count < u32::MAX
            }),
        ensures
            old(self).sample_size == 0 ==> r == MicSample::Off && *final(self) == *old(self),
            old(self).sample_size != 0 ==> ({
                let s = *old(self);
                let wide = s.sample_flags & 1 != 0;
                let pos = s.sample_count as int * s.sample_size as int / s.sample_max_count as int;
                let count = s.sample_count + 1;
                let done = count == s.sample_max_count;
                let again = !done || s.sample_flags & 0x10 != 0;
                &&& r == MicSample::Write {
                    addr: (s.sample_buf as int + pos * if wide { 2int } else { 1 }) as u32,
                    value: adjusted_sample(s.sample_flags, sample),
                    wide,
                    done,
                    again,
                }
                &&& *final(self) == (MicHle {
                    sample_count: if done && s.sample_flags & 0x10 != 0 {
                        0
                    } else {
                        count as u32
                    },
                    ..s
                })
            }),
    {
        if self.sample_size == 0 {
            return MicSample::Off;
        }
        let wide = self.sample_flags & 1 != 0;
        let value = adjust_sample(self.sample_flags, sample);
        let pos = self.sample_count * self.sample_size / self.sample_max_count;
        let addr = self.sample_buf + if wide { pos * 2 } else { pos };
        self.sample_count = self.sample_count + 1;
        let done = self.sample_count == self.sample_max_count;
        let again = !done || self.sample_flags & 0x10 != 0;
        if done && self.sample_flags & 0x10 != 0 {
            self.sample_count = 0;
        }
        MicSample::Write { addr, value, wide, done, again }
    }
}

} // verus!
