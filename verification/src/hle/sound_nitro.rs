use vstd::prelude::*;
use std::collections::VecDeque;

verus! {

// The bookkeeping of the emulated Nitro sound driver: its hardware channel
// records, the tracks and sequences that drive them, its alarms and its
// command counter. Reading the driver's commands and notes from memory and
// writing the sound registers is left to the caller.

/// Hardware sound channels.
pub const CHANNEL_COUNT: usize = 16;

/// Tracks the driver can play at once.
pub const TRACK_COUNT: usize = 32;

/// Sequences the driver can play at once.
pub const SEQUENCE_COUNT: usize = 16;

/// Cycles between two runs of the driver.
pub const SOUND_CMD_PERIOD: u32 = 174592;

/// A sequence slot that holds no track.
pub const NO_TRACK: usize = 0xFF;

/// The driver's record of one hardware channel. `next` links the channels
/// that a track plays on, from the track's `chan_list`.
#[derive(Clone, Copy)]
pub struct Channel {
    pub id: u8,
    pub typ: u8,
    pub vol_ramp_phase: u8,
    pub status_flags: u8,
    pub pan_base1: u8,
    pub freq_base1: u8,
    pub vol_base1: i16,
    pub freq_base2: u8,
    pub vol_base2: u8,
    pub pan_base2: i8,
    pub pan_base3: i8,
    pub vol_base3: i16,
    pub freq_base3: i16,
    pub base_volume: i32,
    pub freq_ramp_pos: i32,
    pub freq_ramp_len: i32,
    pub attack_rate: u8,
    pub sustain_rate: u8,
    pub decay_rate: u16,
    pub release_rate: u16,
    pub priority: u8,
    pub pan: u8,
    pub volume: u8,
    pub volume_div: u8,
    pub frequency: u16,
    pub modulation_type: u8,
    pub modulation_speed: u8,
    pub modulation_depth: u8,
    pub modulation_range: u8,
    pub modulation_delay: u16,
    pub modulation_count1: u16,
    pub modulation_count2: u16,
    pub freq_ramp_target: i16,
    pub note_length: i32,
    pub data_format: u8,
    pub repeat: u8,
    pub sample_rate: u16,
    pub swav_frequency: u16,
    pub loop_pos: u16,
    pub length: u32,
    pub data_addr: u32,
    pub linked: bool,
    pub linked_track: Option<usize>,
    pub next: Option<usize>,
}

/// A sequence: the tracks it plays (`NO_TRACK` for none), its tempo and
/// its tick counter.
#[derive(Clone, Copy)]
pub struct Sequence {
    pub status_flags: u8,
    pub id: u8,
    pub seq_unk02: u8,
    pub seq_unk03: u8,
    pub pan: u8,
    pub volume: usize,
    pub seq_unk06: i16,
    pub tracks: [usize; 16],
    pub tempo: u16,
    pub seq_unk1a: u16,
    pub tick_counter: u16,
    pub sbnk_addr: u32,
}

/// A track of a sequence: its note stream position and the parameters it
/// plays notes with.
#[derive(Clone, Copy)]
pub struct Track {
    pub status_flags: u8,
    pub track_unk01: u8,
    pub instr_index: u16,
    pub volume: usize,
    pub expression: usize,
    pub pitch_bend: i8,
    pub pitch_bend_range: u8,
    pub pan: i8,
    pub track_unk09: i8,
    pub track_unk0a: i16,
    pub frequency: i16,
    pub attack_rate: u8,
    pub decay_rate: u8,
    pub sustain_rate: u8,
    pub release_rate: u8,
    pub priority: u8,
    pub transpose: i8,
    pub track_unk14: i8,
    pub portamento_time: u8,
    pub sweep_pitch: i16,
    pub modulation_type: u8,
    pub modulation_speed: u8,
    pub modulation_depth: u8,
    pub modulation_range: u8,
    pub modulation_delay: u16,
    pub channel_mask: u16,
    pub rest_counter: i32,
    pub note_buffer: u32,
    pub cur_note_addr: u32,
    pub loop_addr: [u32; 3],
    pub loop_count: [u8; 3],
    pub loop_level: u8,
    pub chan_list: Option<usize>,
}

/// A driver alarm: when active it reports to the game after `delay`, then
/// every `repeat` (in units of 64 cycles) if that is not zero.
#[derive(Clone, Copy)]
pub struct Alarm {
    pub active: bool,
    pub delay: u32,
    pub repeat: u32,
    pub param: u32,
}

impl Channel {
    /// A channel record with every field zero and no links.
    pub fn zeroed() -> (r: Self)
        ensures
            r.id == 0 && r.status_flags == 0 && r.priority == 0 && r.volume == 0 && r.volume_div == 0,
            r.base_volume == 0 && r.vol_ramp_phase == 0 && !r.linked,
            r.linked_track is None && r.next is None,
    {
        Channel {
            id: 0,
            typ: 0,
            vol_ramp_phase: 0,
            status_flags: 0,
            pan_base1: 0,
            freq_base1: 0,
            vol_base1: 0,
            freq_base2: 0,
            vol_base2: 0,
            pan_base2: 0,
            pan_base3: 0,
            vol_base3: 0,
            freq_base3: 0,
            base_volume: 0,
            freq_ramp_pos: 0,
            freq_ramp_len: 0,
            attack_rate: 0,
            sustain_rate: 0,
            decay_rate: 0,
            release_rate: 0,
            priority: 0,
            pan: 0,
            volume: 0,
            volume_div: 0,
            frequency: 0,
            modulation_type: 0,
            modulation_speed: 0,
            modulation_depth: 0,
            modulation_range: 0,
            modulation_delay: 0,
            modulation_count1: 0,
            modulation_count2: 0,
            freq_ramp_target: 0,
            note_length: 0,
            data_format: 0,
            repeat: 0,
            sample_rate: 0,
            swav_frequency: 0,
            loop_pos: 0,
            length: 0,
            data_addr: 0,
            linked: false,
            linked_track: None,
            next: None,
        }
    }
}

impl Sequence {
    /// A sequence record with every field zero.
    pub fn zeroed() -> (r: Self)
        ensures
            r.status_flags == 0 && r.id == 0,
            forall|i: int| 0 <= i < 16 ==> #[trigger] r.tracks@[i] == 0,
    {
        Sequence {
            status_flags: 0,
            id: 0,
            seq_unk02: 0,
            seq_unk03: 0,
            pan: 0,
            volume: 0,
            seq_unk06: 0,
            tracks: [0usize; 16],
            tempo: 0,
            seq_unk1a: 0,
            tick_counter: 0,
            sbnk_addr: 0,
        }
    }
}

impl Track {
    /// A track record with every field zero.
    pub fn zeroed() -> (r: Self)
        ensures
            r.status_flags == 0,
            r.chan_list is None,
    {
        Track {
            status_flags: 0,
            track_unk01: 0,
            instr_index: 0,
            volume: 0,
            expression: 0,
            pitch_bend: 0,
            pitch_bend_range: 0,
            pan: 0,
            track_unk09: 0,
            track_unk0a: 0,
            frequency: 0,
            attack_rate: 0,
            decay_rate: 0,
            sustain_rate: 0,
            release_rate: 0,
            priority: 0,
            transpose: 0,
            track_unk14: 0,
            portamento_time: 0,
            sweep_pitch: 0,
            modulation_type: 0,
            modulation_speed: 0,
            modulation_depth: 0,
            modulation_range: 0,
            modulation_delay: 0,
            channel_mask: 0,
            rest_counter: 0,
            note_buffer: 0,
            cur_note_addr: 0,
            loop_addr: [0u32; 3],
            loop_count: [0u8; 3],
            loop_level: 0,
            chan_list: None,
        }
    }

    /// Sets the track up to play from the start: no note stream, flags 1
    /// and 6 set and 2 to 5 and 7 cleared, the default volume, priority,
    /// envelope and modulation, every channel allowed, no channels.
    pub fn init(&mut self)
        ensures
            *final(self) == init_track(*old(self)),
    {
        self.note_buffer = 0;
        self.cur_note_addr = 0;

        self.status_flags = self.status_flags | 0x42;
        self.status_flags = self.status_flags & !0xBCu8;

        self.loop_level = 0;
        self.instr_index = 0;
        self.priority = 64;
        self.volume = 127;
        self.expression = 127;
        self.track_unk0a = 0;
        self.pan = 0;
        self.track_unk09 = 0;
        self.pitch_bend = 0;
        self.frequency = 0;
        self.attack_rate = 255;
        self.decay_rate = 255;
        self.sustain_rate = 255;
        self.release_rate = 255;
        self.track_unk01 = 127;
        self.pitch_bend_range = 2;
        self.track_unk14 = 60;
        self.portamento_time = 0;
        self.sweep_pitch = 0;
        self.transpose = 0;
        self.channel_mask = 0xFFFF;

        self.modulation_type = 0;
        self.modulation_depth = 0;
        self.modulation_range = 1;
        self.modulation_speed = 16;
        self.modulation_delay = 0;

        self.rest_counter = 0;
        self.chan_list = None;
    }
}
/// The header of a wave sample: where it starts and what its first twelve
/// bytes say (encoding, loop mode, rate, timer, loop start, length).
#[derive(Clone, Copy, Debug, PartialEq, Eq, Structural)]
pub struct WaveHeader {
    pub addr: u32,
    pub data_format: u8,
    pub repeat: u8,
    pub sample_rate: u16,
    pub swav_frequency: u16,
    pub loop_pos: u16,
    pub length: u32,
}

/// Whether `addr` can hold sound data: set and below the end of main memory.
pub open spec fn sound_addr_ok(addr: u32) -> bool {
    addr != 0 && addr < 0x0300_0000
}

/// The little-endian halfword of `data` at byte `at`.
pub open spec fn halfword(data: Seq<u8>, at: int) -> u32 {
    (data[at] as u32 | (data[at + 1] as u32) << 8u32) as u32
}

/// Channel `c` (number `chan_id`) after instrument record `data` is set up on
/// it at pitch `tune`, velocity `speed`, for `len` ticks, with wave header
/// `wave`; `None` where the record cannot play there.
pub open spec fn instrument_setup(
    c: Channel,
    chan_id: int,
    tune: u8,
    speed: u8,
    len: i32,
    data: Seq<u8>,
    wave: Option<WaveHeader>,
) -> Option<Channel> {
    let kind = data[0x00];
    let typed: Option<Channel> = if kind == 1 || kind == 4 {
        match wave {
            Some(w) => if sound_addr_ok(w.addr) {
                Some(
                    Channel {
                        typ: 0,
                        data_format: w.data_format,
                        repeat: w.repeat,
                        sample_rate: w.sample_rate,
                        swav_frequency: w.swav_frequency,
                        loop_pos: w.loop_pos,
                        length: w.length,
                        data_addr: (w.addr + 0xC) as u32,
                        ..c
                    },
                )
            } else {
                None
            },
            None => None,
        }
    } else if kind == 2 {
        if 8 <= chan_id <= 13 {
            Some(Channel { typ: 1, data_addr: halfword(data, 2), swav_frequency: 0x1F46, ..c })
        } else {
            None
        }
    } else if kind == 3 {
        if 14 <= chan_id <= 15 {
            Some(Channel { typ: 2, swav_frequency: 0x1F46, ..c })
        } else {
            None
        }
    } else {
        None
    };
    let forever = data[0x0A] == 0xFF;
    let release: u8 = if forever { 0 } else { data[0x0A] };
    match typed {
        Some(t) => Some(
            Channel {
                base_volume: -92544i32,
                vol_ramp_phase: 0,
                note_length: if forever { -1i32 } else { len },
                modulation_count1: 0,
                modulation_count2: 0,
                status_flags: t.status_flags | 0x03,
                freq_base2: tune,
                freq_base1: data[0x06],
                vol_base2: speed,
                attack_rate: spec_attack_rate(data[0x07]),
                decay_rate: spec_calc_rate(data[0x08] as int) as u16,
                sustain_rate: data[0x09],
                release_rate: spec_calc_rate(release as int) as u16,
                pan_base2: ((data[0x0B] as i8) - 64) as i8,
                ..t
            },
        ),
        None => None,
    }
}

/// The wave address that a direct-wave instrument record (kind 4) holds:
/// the little-endian word at byte 2.
pub fn instrument_wave_addr(data: &[u8; 16]) -> (r: u32)
    ensures
        r == halfword(data@, 2) | halfword(data@, 4) << 16u32,
{
    let lo: u32 = data[0x02] as u32 | (data[0x03] as u32) << 8;
    let hi: u32 = data[0x04] as u32 | (data[0x05] as u32) << 8;
    lo | hi << 16
}

/// The wave address of sample `swav_num` of the wave archive at `swar`, whose
/// sample count is `num_samples` and whose table entry for the sample is
/// `entry`: `None` where the archive is missing, the sample is out of its
/// range or its entry is empty; entries below main memory are offsets from
/// the archive.
pub fn archive_wave_addr(swar: u32, num_samples: u32, swav_num: u16, entry: u32) -> (r: Option<u32>)
    ensures
        r == (if !sound_addr_ok(swar) || swav_num >= num_samples || entry == 0 {
            None
        } else if entry < 0x0200_0000 {
            Some((entry + swar) as u32)
        } else {
            Some(entry)
        }),
{
    if swar == 0 || swar >= 0x0300_0000 {
        return None;
    }
    if swav_num as u32 >= num_samples {
        return None;
    }
    if entry == 0 {
        return None;
    }
    if entry < 0x0200_0000 {
        Some(entry + swar)
    } else {
        Some(entry)
    }
}

/// Address of note parameter `idx` in the shared block at `shared`: the
/// global parameters (from 0x10) follow at 0x260, the per-sequence ones sit
/// in a 0x24-byte slot per sequence id from 0x20; each is a halfword.
pub open spec fn note_param_addr(shared: u32, seq_id: u8, idx: u8) -> int {
    if idx >= 0x10 {
        shared + 0x260 + (idx - 0x10) * 2
    } else {
        shared + 0x20 + seq_id * 0x24 + idx * 2
    }
}


/// The envelope rate of a rate parameter from 0 to 255: 127 and 126 are
/// special, low rates grow by two, the rest fall off as 0x1E00 over the
/// distance to 126; above 126 that quotient is negative, truncated toward
/// zero, and kept in its low 16 bits.
pub open spec fn spec_calc_rate(rate: int) -> int {
    if rate == 0x7F {
        0xFFFF
    } else if rate == 0x7E {
        0x3C00
    } else if rate < 0x32 {
        2 * rate + 1
    } else if rate < 0x7E {
        0x1E00int / (0x7E - rate)
    } else {
        0x10000 - 0x1E00int / (rate - 0x7E)
    }
}

/// The envelope rate of rate parameter `rate`.
pub fn calc_rate(rate: i32) -> (r: i32)
    requires
        0 <= rate <= 0xFF,
    ensures
        r == spec_calc_rate(rate as int),
        0 <= r <= 0xFFFF,
{
    if rate == 0x7F {
        return 0xFFFF;
    }
    if rate == 0x7E {
        return 0x3C00;
    }
    if rate < 0x32 {
        return rate * 2 + 1;
    }
    let d: i32 = if rate < 0x7E {
        0x7E - rate
    } else {
        rate - 0x7E
    };
    assert(1 <= 0x1E00int / (d as int) <= 0x1E00) by (nonlinear_arith)
        requires
            1 <= d <= 0x81,
    ;
    if rate < 0x7E {
        0x1E00i32 / d
    } else {
        0x10000i32 - 0x1E00i32 / d
    }
}

/// Whether following the channel links from `c` reaches the end of the
/// list within `n` channels, each a valid channel number.
pub open spec fn ends_within(chs: Seq<Channel>, c: Option<usize>, n: nat) -> bool
    decreases n,
{
    match c {
        None => true,
        Some(id) => n > 0 && id < CHANNEL_COUNT && ends_within(chs, chs[id as int].next, (n - 1) as nat),
    }
}

/// Two channel tables with the same links.
pub open spec fn same_links(a: Seq<Channel>, b: Seq<Channel>) -> bool {
    &&& a.len() == b.len()
    &&& forall|i: int| 0 <= i < a.len() ==> #[trigger] a[i].next == b[i].next
}

pub proof fn lemma_ends_same_links(a: Seq<Channel>, b: Seq<Channel>, c: Option<usize>, n: nat)
    requires
        same_links(a, b),
        a.len() == CHANNEL_COUNT,
    ensures
        ends_within(a, c, n) == ends_within(b, c, n),
    decreases n,
{
    if let Some(id) = c {
        if n > 0 && id < CHANNEL_COUNT {
            assert(a[id as int].next == b[id as int].next);
            lemma_ends_same_links(a, b, a[id as int].next, (n - 1) as nat);
        }
    }
}

pub proof fn lemma_ends_more(chs: Seq<Channel>, c: Option<usize>, n: nat, m: nat)
    requires
        ends_within(chs, c, n),
        n <= m,
    ensures
        ends_within(chs, c, m),
    decreases n,
{
    if let Some(id) = c {
        lemma_ends_more(chs, chs[id as int].next, (n - 1) as nat, (m - 1) as nat);
    }
}

/// The 3-letter game code prefixes that change how the driver reads its
/// commands.
pub open spec fn code_is(code: Seq<u8>, a: u8, b: u8, c: u8) -> bool {
    code[0] == a && code[1] == b && code[2] == c
}

/// The Nitro sound driver.
pub struct SoundNitro {
    pub cmd_queue: VecDeque<u32>,
    pub counter: u32,
    pub channels: [Channel; 16],
    pub sequences: [Sequence; 16],
    pub tracks: [Track; 32],
    pub alarms: [Alarm; 8],
    pub channel_vol: [u8; 16],
    pub channel_pan: [u8; 16],
    pub master_pan: i32,
    pub surround_decay: i32,
    pub shared_mem: u32,
    pub cmd_offset: u32,
    pub cmd_translate: bool,
}

impl SoundNitro {
    /// The channel lists are finite and every channel, track and sequence
    /// reference is in range.
    pub open spec fn wf(&self) -> bool {
        &&& forall|c: usize| c < CHANNEL_COUNT ==> #[trigger] ends_within(self.channels@, Some(c), CHANNEL_COUNT as nat)
        &&& forall|t: int| 0 <= t < TRACK_COUNT ==> #[trigger] ends_within(self.channels@, self.tracks@[t].chan_list, CHANNEL_COUNT as nat)
        &&& forall|c: int|
            0 <= c < CHANNEL_COUNT ==> ((#[trigger] self.channels@[c]).linked_track matches Some(t) ==> t < TRACK_COUNT)
        &&& forall|q: int, i: int|
            0 <= q < SEQUENCE_COUNT && 0 <= i < 16 ==> (#[trigger] self.sequences@[q].tracks@[i] == NO_TRACK
                || self.sequences@[q].tracks@[i] < TRACK_COUNT)
        &&& forall|c: int| 0 <= c < CHANNEL_COUNT ==> (#[trigger] self.channels@[c]).volume_div <= 3
    }

    /// A driver with every record zero, nothing queued and no panning
    /// override; `reset` readies it for a game.
    pub fn new() -> (r: Self)
        ensures
            r.wf(),
            r.cmd_queue@.len() == 0,
            r.counter == 0 && r.master_pan == 0 && r.surround_decay == 0 && r.shared_mem == 0,
            r.cmd_offset == 0 && !r.cmd_translate,
    {
        let r = SoundNitro {
            cmd_queue: VecDeque::new(),
            counter: 0,
            channels: [Channel::zeroed(); 16],
            sequences: [Sequence::zeroed(); 16],
            tracks: [Track::zeroed(); 32],
            alarms: [Alarm { active: false, delay: 0, repeat: 0, param: 0 }; 8],
            channel_vol: [0u8; 16],
            channel_pan: [0u8; 16],
            master_pan: 0,
            surround_decay: 0,
            shared_mem: 0,
            cmd_offset: 0,
            cmd_translate: false,
        };
        proof {
            assert forall|c: usize| c < CHANNEL_COUNT implies #[trigger] ends_within(r.channels@, Some(c), CHANNEL_COUNT as nat) by {
                assert(r.channels@[c as int].next is None);
                assert(ends_within(r.channels@, r.channels@[c as int].next, (CHANNEL_COUNT - 1) as nat));
            }
        }
        r
    }

    /// Readies the driver for the game whose code starts with `game_code`:
    /// every record cleared, each channel and sequence numbered, no panning
    /// override, no shared memory; four games read their commands shifted
    /// or translated. The caller sets the master volume and enable of the
    /// sound hardware and runs the driver every `SOUND_CMD_PERIOD` cycles.
    pub fn reset(&mut self, game_code: &[u8])
        requires
            game_code@.len() >= 3,
        ensures
            final(self).wf(),
            final(self).cmd_queue@.len() == 0,
            final(self).shared_mem == 0 && final(self).counter == 0,
            final(self).master_pan == -1 && final(self).surround_decay == 0,
            forall|c: int|
                0 <= c < CHANNEL_COUNT ==> (#[trigger] final(self).channels@[c]).id == c && final(self).channels@[c].status_flags == 0
                    && final(self).channels@[c].priority == 0 && final(self).channels@[c].next is None
                    && !final(self).channels@[c].linked,
            forall|q: int|
                0 <= q < SEQUENCE_COUNT ==> (#[trigger] final(self).sequences@[q]).id == q && final(self).sequences@[q].status_flags == 0,
            forall|t: int| 0 <= t < TRACK_COUNT ==> (#[trigger] final(self).tracks@[t]).status_flags == 0,
            forall|a: int| 0 <= a < 8 ==> !(#[trigger] final(self).alarms@[a]).active,
            final(self).channel_vol@ == Seq::new(16, |i: int| 0u8),
            final(self).channel_pan@ == Seq::new(16, |i: int| 0u8),
            final(self).cmd_offset == if code_is(game_code@, 0x41, 0x43, 0x56) {
                2
            } else if code_is(game_code@, 0x41, 0x55, 0x47) || code_is(game_code@, 0x41, 0x52, 0x59) {
                3
            } else {
                old(self).cmd_offset
            },
            final(self).cmd_translate == (code_is(game_code@, 0x41, 0x53, 0x4D) || old(self).cmd_translate),
    {
        self.cmd_queue.clear();
        self.shared_mem = 0;
        self.counter = 0;

        let mut channels = [Channel::zeroed(); 16];
        let mut i: usize = 0;
        while i < CHANNEL_COUNT
            invariant
                i <= CHANNEL_COUNT,
                forall|c: int|
                    0 <= c < CHANNEL_COUNT ==> (#[trigger] channels@[c]).status_flags == 0 && channels@[c].priority == 0
                        && channels@[c].volume_div == 0 && channels@[c].next is None && !channels@[c].linked && channels@[c].linked_track is None
                        && (c < i ==> channels@[c].id == c),
            decreases CHANNEL_COUNT - i,
        {
            let mut chan = channels[i];
            chan.id = i as u8;
            channels[i] = chan;
            i = i + 1;
        }
        let mut sequences = [Sequence::zeroed(); 16];
        let mut i: usize = 0;
        while i < SEQUENCE_COUNT
            invariant
                i <= SEQUENCE_COUNT,
                forall|q: int|
                    0 <= q < SEQUENCE_COUNT ==> (#[trigger] sequences@[q]).status_flags == 0 && (q < i ==> sequences@[q].id == q)
                        && forall|k: int| 0 <= k < 16 ==> #[trigger] sequences@[q].tracks@[k] == 0,
            decreases SEQUENCE_COUNT - i,
        {
            let mut seq = sequences[i];
            seq.id = i as u8;
            sequences[i] = seq;
            i = i + 1;
        }
        self.channels = channels;
        self.sequences = sequences;
        self.tracks = [Track::zeroed(); 32];
        self.alarms = [Alarm { active: false, delay: 0, repeat: 0, param: 0 }; 8];
        self.channel_vol = [0u8; 16];
        self.channel_pan = [0u8; 16];
        self.master_pan = -1;
        self.surround_decay = 0;

        if game_code[0] == 0x41 && game_code[1] == 0x43 && game_code[2] == 0x56 {
            self.cmd_offset = 2;
        } else if game_code[0] == 0x41 && game_code[1] == 0x55 && game_code[2] == 0x47 {
            self.cmd_offset = 3;
        } else if game_code[0] == 0x41 && game_code[1] == 0x53 && game_code[2] == 0x4D {
            self.cmd_translate = true;
        } else if game_code[0] == 0x41 && game_code[1] == 0x52 && game_code[2] == 0x59 {
            self.cmd_offset = 3;
        }
        proof {
            assert(self.channel_vol@ =~= Seq::new(16, |i: int| 0u8));
            assert(self.channel_pan@ =~= Seq::new(16, |i: int| 0u8));
            assert forall|c: usize| c < CHANNEL_COUNT implies #[trigger] ends_within(self.channels@, Some(c), CHANNEL_COUNT as nat) by {
                assert(self.channels@[c as int].next is None);
                assert(ends_within(self.channels@, self.channels@[c as int].next, (CHANNEL_COUNT - 1) as nat));
            }
        }
    }

    /// Takes a message from the game: 0 runs the driver now (returns true),
    /// an address in main memory or above (0x02000000 on) queues a command
    /// list, anything else is ignored.
    pub fn ipc_recv(&mut self, data: u32) -> (process: bool)
        ensures
            process == (data == 0),
            final(self).cmd_queue@ == if data != 0 && data >= 0x02000000 {
                old(self).cmd_queue@.push(data)
            } else {
                old(self).cmd_queue@
            },
            final(self).channels == old(self).channels,
            final(self).tracks == old(self).tracks,
            final(self).sequences == old(self).sequences,
    {
        if data == 0 {
            true
        } else {
            if data >= 0x02000000 {
                self.cmd_queue.push_back(data);
            }
            false
        }
    }

    /// The next command list to read, oldest first.
    pub fn pop_cmd_list(&mut self) -> (r: Option<u32>)
        ensures
            old(self).cmd_queue@.len() == 0 ==> r is None && final(self).cmd_queue@ == old(self).cmd_queue@,
            old(self).cmd_queue@.len() > 0 ==> r == Some(old(self).cmd_queue@[0]) && final(self).cmd_queue@ == old(self).cmd_queue@.drop_first(),
    {
        self.cmd_queue.pop_front()
    }

    /// Steps the driver's random counter, a linear congruential generator,
    /// and returns its high half.
    pub fn update_counter(&mut self) -> (r: u16)
        ensures
            final(self).counter == ((old(self).counter as nat * 0x19660D) % 0x1_0000_0000 + 0x3C6EF35F) % 0x1_0000_0000,
            r == final(self).counter / 0x10000,
            final(self).same_but_counter(old(self)),
    {
        self.counter = self.counter.wrapping_mul(0x19660D).wrapping_add(0x3C6EF35F);
        let c = self.counter;
        proof {
            vstd::bits::lemma_u32_shr_is_div(c, 16);
            vstd::arithmetic::power2::lemma2_to64();
        }
        (c >> 16u32) as u16
    }
}

/// The first free track (flag 0 clear) from track `from` on.
pub open spec fn first_free(trs: Seq<Track>, from: int) -> Option<usize>
    decreases TRACK_COUNT - from,
{
    if from < 0 || from >= TRACK_COUNT {
        None
    } else if trs[from].status_flags & 1 == 0 {
        Some(from as usize)
    } else {
        first_free(trs, from + 1)
    }
}

pub proof fn lemma_first_free(trs: Seq<Track>, from: int)
    requires
        0 <= from <= TRACK_COUNT,
    ensures
        first_free(trs, from) matches Some(i) ==> from <= i < TRACK_COUNT && trs[i as int].status_flags & 1 == 0 && forall|t: int|
            from <= t < i ==> #[trigger] trs[t].status_flags & 1 != 0,
        first_free(trs, from) is None ==> forall|t: int| from <= t < TRACK_COUNT ==> #[trigger] trs[t].status_flags & 1 != 0,
    decreases TRACK_COUNT - from,
{
    if from < TRACK_COUNT && trs[from].status_flags & 1 != 0 {
        lemma_first_free(trs, from + 1);
    }
}

pub proof fn lemma_first_free_is(trs: Seq<Track>, from: int, i: int)
    requires
        0 <= from <= i < TRACK_COUNT,
        trs[i].status_flags & 1 == 0,
        forall|t: int| from <= t < i ==> #[trigger] trs[t].status_flags & 1 != 0,
    ensures
        first_free(trs, from) == Some(i as usize),
    decreases i - from,
{
    if from < i {
        assert(trs[from].status_flags & 1 != 0);
        lemma_first_free_is(trs, from + 1, i);
    }
}

pub proof fn lemma_first_free_none(trs: Seq<Track>, from: int)
    requires
        0 <= from <= TRACK_COUNT,
        forall|t: int| from <= t < TRACK_COUNT ==> #[trigger] trs[t].status_flags & 1 != 0,
    ensures
        first_free(trs, from) is None,
    decreases TRACK_COUNT - from,
{
    if from < TRACK_COUNT {
        assert(trs[from].status_flags & 1 != 0);
        lemma_first_free_none(trs, from + 1);
    }
}

/// The attack rates of the top rate parameters, 127 down to 109.
pub const ATTACK_RATE_TABLE: [u8; 19] = [0x00, 0x01, 0x05, 0x0E, 0x1A, 0x26, 0x33, 0x3F, 0x49, 0x54, 0x5C, 0x64, 0x6D, 0x74, 0x7B, 0x7F, 0x84, 0x89, 0x8F];

pub open spec fn attack_rate_table() -> Seq<u8> {
    seq![0x00u8, 0x01, 0x05, 0x0E, 0x1A, 0x26, 0x33, 0x3F, 0x49, 0x54, 0x5C, 0x64, 0x6D, 0x74, 0x7B, 0x7F, 0x84, 0x89, 0x8F]
}

/// The attack rate of rate parameter `rate`: 255 minus it below 109, from
/// the table above (parameters past 127 counting as 127).
pub open spec fn spec_attack_rate(rate: u8) -> u8 {
    if rate < 109 {
        (255 - rate) as u8
    } else if rate >= 127 {
        attack_rate_table()[0]
    } else {
        attack_rate_table()[127 - rate]
    }
}

impl SoundNitro {
    /// The command queue, counter, channel volumes and pans, master pan,
    /// surround decay, shared memory address and command layout are as in
    /// `other`.
    pub open spec fn same_scalars(&self, other: &SoundNitro) -> bool {
        &&& self.cmd_queue@ == other.cmd_queue@
        &&& self.counter == other.counter
        &&& self.channel_vol == other.channel_vol
        &&& self.channel_pan == other.channel_pan
        &&& self.master_pan == other.master_pan
        &&& self.surround_decay == other.surround_decay
        &&& self.shared_mem == other.shared_mem
        &&& self.cmd_offset == other.cmd_offset
        &&& self.cmd_translate == other.cmd_translate
    }

    /// Everything but the random counter is as in `other`.
    pub open spec fn same_but_counter(&self, other: &SoundNitro) -> bool {
        &&& self.cmd_queue@ == other.cmd_queue@
        &&& self.channels == other.channels
        &&& self.sequences == other.sequences
        &&& self.tracks == other.tracks
        &&& self.alarms == other.alarms
        &&& self.channel_vol == other.channel_vol
        &&& self.channel_pan == other.channel_pan
        &&& self.master_pan == other.master_pan
        &&& self.surround_decay == other.surround_decay
        &&& self.shared_mem == other.shared_mem
        &&& self.cmd_offset == other.cmd_offset
        &&& self.cmd_translate == other.cmd_translate
    }

    /// Everything but the channel records is as in `other`.
    pub open spec fn same_but_channels(&self, other: &SoundNitro) -> bool {
        &&& self.cmd_queue@ == other.cmd_queue@
        &&& self.counter == other.counter
        &&& self.sequences == other.sequences
        &&& self.tracks == other.tracks
        &&& self.alarms == other.alarms
        &&& self.channel_vol == other.channel_vol
        &&& self.channel_pan == other.channel_pan
        &&& self.master_pan == other.master_pan
        &&& self.surround_decay == other.surround_decay
        &&& self.shared_mem == other.shared_mem
        &&& self.cmd_offset == other.cmd_offset
        &&& self.cmd_translate == other.cmd_translate
    }

    /// The channel links, track lists, link owners and sequence tracks of
    /// `other` keep the driver well formed when `self` is.
    proof fn lemma_wf_same_links(&self, other: &SoundNitro)
        requires
            self.wf(),
            same_links(self.channels@, other.channels@),
            forall|t: int| 0 <= t < TRACK_COUNT ==> #[trigger] other.tracks@[t].chan_list == self.tracks@[t].chan_list,
            forall|c: int|
                0 <= c < CHANNEL_COUNT ==> ((#[trigger] other.channels@[c]).linked_track matches Some(t) ==> t < TRACK_COUNT),
            forall|c: int| 0 <= c < CHANNEL_COUNT ==> (#[trigger] other.channels@[c]).volume_div <= 3,
            other.sequences == self.sequences,
        ensures
            other.wf(),
    {
        assert forall|c: usize| c < CHANNEL_COUNT implies #[trigger] ends_within(other.channels@, Some(c), CHANNEL_COUNT as nat) by {
            lemma_ends_same_links(self.channels@, other.channels@, Some(c), CHANNEL_COUNT as nat);
            assert(ends_within(self.channels@, Some(c), CHANNEL_COUNT as nat));
        }
        assert forall|t: int| 0 <= t < TRACK_COUNT implies #[trigger] ends_within(other.channels@, other.tracks@[t].chan_list, CHANNEL_COUNT as nat) by {
            lemma_ends_same_links(self.channels@, other.channels@, self.tracks@[t].chan_list, CHANNEL_COUNT as nat);
            assert(ends_within(self.channels@, self.tracks@[t].chan_list, CHANNEL_COUNT as nat));
        }
    }

    /// Sets the attack rate of channel `chan_id` from rate parameter `rate`.
    pub fn set_channel_attack_rate(&mut self, chan_id: usize, rate: u8)
        requires
            old(self).wf(),
            chan_id < CHANNEL_COUNT,
        ensures
            final(self).wf(),
            final(self).same_but_channels(old(self)),
            final(self).channels@ == old(self).channels@.update(
                chan_id as int,
                (Channel { attack_rate: spec_attack_rate(rate), ..old(self).channels@[chan_id as int] }),
            ),
    {
        let mut c = self.channels[chan_id];
        if rate < 109 {
            c.attack_rate = 255 - rate;
        } else {
            let table = ATTACK_RATE_TABLE;
            assert(table@ == attack_rate_table());
            let r: u8 = if rate > 127 {
                127
            } else {
                rate
            };
            c.attack_rate = table[(127 - r) as usize];
        }
        let ghost before = *self;
        self.channels[chan_id] = c;
        proof {
            assert(self.channels@ == before.channels@.update(chan_id as int, c));
            before.lemma_wf_same_links(self);
        }
    }

    /// Sets the decay rate of channel `chan_id` from rate parameter `rate`.
    pub fn set_channel_decay_rate(&mut self, chan_id: usize, rate: i32)
        requires
            old(self).wf(),
            chan_id < CHANNEL_COUNT,
            0 <= rate <= 0xFF,
        ensures
            final(self).wf(),
            final(self).same_but_channels(old(self)),
            final(self).channels@ == old(self).channels@.update(
                chan_id as int,
                (Channel { decay_rate: spec_calc_rate(rate as int) as u16, ..old(self).channels@[chan_id as int] }),
            ),
    {
        let mut c = self.channels[chan_id];
        c.decay_rate = calc_rate(rate) as u16;
        let ghost before = *self;
        self.channels[chan_id] = c;
        proof {
            before.lemma_wf_same_links(self);
        }
    }

    /// Sets the sustain rate of channel `chan_id` to `rate`.
    pub fn set_channel_sustain_rate(&mut self, chan_id: usize, rate: u8)
        requires
            old(self).wf(),
            chan_id < CHANNEL_COUNT,
        ensures
            final(self).wf(),
            final(self).same_but_channels(old(self)),
            final(self).channels@ == old(self).channels@.update(chan_id as int, (Channel { sustain_rate: rate, ..old(self).channels@[chan_id as int] })),
    {
        let mut c = self.channels[chan_id];
        c.sustain_rate = rate;
        let ghost before = *self;
        self.channels[chan_id] = c;
        proof {
            before.lemma_wf_same_links(self);
        }
    }

    /// Sets the release rate of channel `chan_id` from rate parameter `rate`.
    pub fn set_channel_release_rate(&mut self, chan_id: usize, rate: i32)
        requires
            old(self).wf(),
            chan_id < CHANNEL_COUNT,
            0 <= rate <= 0xFF,
        ensures
            final(self).wf(),
            final(self).same_but_channels(old(self)),
            final(self).channels@ == old(self).channels@.update(
                chan_id as int,
                (Channel { release_rate: spec_calc_rate(rate as int) as u16, ..old(self).channels@[chan_id as int] }),
            ),
    {
        let mut c = self.channels[chan_id];
        c.release_rate = calc_rate(rate) as u16;
        let ghost before = *self;
        self.channels[chan_id] = c;
        proof {
            before.lemma_wf_same_links(self);
        }
    }

    /// Readies channel `chan_id` for an instrument note of `len` ticks:
    /// silent envelope in its attack phase, modulation restarted, and the
    /// channel marked started and active.
    pub fn init_instrument_channel(&mut self, chan_id: usize, len: i32)
        requires
            old(self).wf(),
            chan_id < CHANNEL_COUNT,
        ensures
            final(self).wf(),
            final(self).same_but_channels(old(self)),
            final(self).channels@ == old(self).channels@.update(
                chan_id as int,
                (Channel {
                    base_volume: -92544i32,
                    vol_ramp_phase: 0,
                    note_length: len,
                    modulation_count1: 0,
                    modulation_count2: 0,
                    status_flags: old(self).channels@[chan_id as int].status_flags | 0x03,
                    ..old(self).channels@[chan_id as int]
                }),
            ),
    {
        let mut c = self.channels[chan_id];
        c.base_volume = -92544;
        c.vol_ramp_phase = 0;
        c.note_length = len;
        c.modulation_count1 = 0;
        c.modulation_count2 = 0;
        c.status_flags = c.status_flags | 0x03;
        let ghost before = *self;
        self.channels[chan_id] = c;
        proof {
            before.lemma_wf_same_links(self);
        }
    }

    /// Address of note parameter `idx` of sequence `seq_id` in the shared
    /// block: indexes from 0x10 up name the global parameters, the lower ones
    /// the sequence's own; 0 while no shared block is set.
    pub fn get_note_param_addr(&self, seq_id: usize, idx: u8) -> (r: u32)
        requires
            seq_id < SEQUENCE_COUNT,
            self.shared_mem != 0 ==> note_param_addr(self.shared_mem, self.sequences@[seq_id as int].id, idx)
                <= u32::MAX,
        ensures
            r == (if self.shared_mem == 0 {
                0
            } else {
                note_param_addr(self.shared_mem, self.sequences@[seq_id as int].id, idx)
            }),
    {
        if self.shared_mem == 0 {
            return 0;
        }
        if idx >= 0x10 {
            self.shared_mem + 0x260 + (idx as u32 - 0x10) * 2
        } else {
            self.shared_mem + 0x20 + self.sequences[seq_id].id as u32 * 0x24 + idx as u32 * 2
        }
    }

    /// Sets channel `chan_id` up to play instrument record `data` at note
    /// pitch `tune`, velocity `speed`, for `len` ticks. Wave instruments
    /// (kinds 1 and 4) take the header of their sample, read at the address
    /// that `archive_wave_addr` or `instrument_wave_addr` gives, and `None`
    /// where that lookup failed. PSG instruments need one of channels 8 to 13,
    /// noise one of 14 and 15. Returns whether the channel was set up; when
    /// not, nothing changes.
    pub fn setup_instrument(
        &mut self,
        chan_id: usize,
        tune: u8,
        speed: u8,
        len: i32,
        data: &[u8; 16],
        wave: Option<WaveHeader>,
    ) -> (r: bool)
        requires
            old(self).wf(),
            chan_id < CHANNEL_COUNT,
            data@[0x0B] as i8 >= -64,
        ensures
            final(self).wf(),
            final(self).same_but_channels(old(self)),
            r == instrument_setup(old(self).channels@[chan_id as int], chan_id as int, tune, speed, len, data@, wave) is Some,
            final(self).channels@ == match instrument_setup(old(self).channels@[chan_id as int], chan_id as int, tune, speed, len, data@, wave) {
                Some(c) => old(self).channels@.update(chan_id as int, c),
                None => old(self).channels@,
            },
    {
        let mut note_len = len;
        let mut release = data[0x0A];
        if release == 0xFF {
            release = 0;
            note_len = -1;
        }
        let mut c = self.channels[chan_id];
        if data[0x00] == 1 || data[0x00] == 4 {
            match wave {
                Some(w) => {
                    if w.addr == 0 || w.addr >= 0x0300_0000 {
                        return false;
                    }
                    c.typ = 0;
                    c.data_format = w.data_format;
                    c.repeat = w.repeat;
                    c.sample_rate = w.sample_rate;
                    c.swav_frequency = w.swav_frequency;
                    c.loop_pos = w.loop_pos;
                    c.length = w.length;
                    c.data_addr = w.addr + 0xC;
                },
                None => {
                    return false;
                },
            }
        } else if data[0x00] == 2 {
            if chan_id < 8 || chan_id > 13 {
                return false;
            }
            c.typ = 1;
            c.data_addr = data[0x02] as u32 | (data[0x03] as u32) << 8;
            c.swav_frequency = 0x1F46;
        } else if data[0x00] == 3 {
            if chan_id < 14 || chan_id > 15 {
                return false;
            }
            c.typ = 2;
            c.swav_frequency = 0x1F46;
        } else {
            return false;
        }
        let ghost before = *self;
        self.channels[chan_id] = c;
        proof {
            before.lemma_wf_same_links(self);
        }
        self.init_instrument_channel(chan_id, note_len);
        let mut c = self.channels[chan_id];
        c.freq_base2 = tune;
        c.freq_base1 = data[0x06];
        c.vol_base2 = speed;
        let ghost mid = *self;
        self.channels[chan_id] = c;
        proof {
            mid.lemma_wf_same_links(self);
        }
        self.set_channel_attack_rate(chan_id, data[0x07]);
        self.set_channel_decay_rate(chan_id, data[0x08] as i32);
        self.set_channel_sustain_rate(chan_id, data[0x09]);
        self.set_channel_release_rate(chan_id, release as i32);
        let mut c = self.channels[chan_id];
        c.pan_base2 = data[0x0B] as i8 - 64;
        let ghost last = *self;
        self.channels[chan_id] = c;
        proof {
            last.lemma_wf_same_links(self);
            assert(self.channels@ =~= old(self).channels@.update(
                chan_id as int,
                instrument_setup(old(self).channels@[chan_id as int], chan_id as int, tune, speed, len, data@, wave)->0,
            ));
        }
        true
    }

    /// Takes the first free track (flag 0 clear), marking it used.
    pub fn allocate_free_track(&mut self) -> (r: Option<usize>)
        requires
            old(self).wf(),
        ensures
            final(self).same_scalars(old(self)),
            final(self).alarms == old(self).alarms,
            r == first_free(old(self).tracks@, 0),
            final(self).wf(),
            final(self).channels == old(self).channels,
            final(self).sequences == old(self).sequences,
            match r {
                None => {
                    &&& forall|t: int| 0 <= t < TRACK_COUNT ==> #[trigger] old(self).tracks@[t].status_flags & 1 != 0
                    &&& final(self).tracks == old(self).tracks
                },
                Some(i) => {
                    &&& i < TRACK_COUNT
                    &&& old(self).tracks@[i as int].status_flags & 1 == 0
                    &&& forall|t: int| 0 <= t < i ==> #[trigger] old(self).tracks@[t].status_flags & 1 != 0
                    &&& final(self).tracks@ == old(self).tracks@.update(
                        i as int,
                        (Track { status_flags: old(self).tracks@[i as int].status_flags | 1, ..old(self).tracks@[i as int] }),
                    )
                },
            },
    {
        let mut i: usize = 0;
        while i < TRACK_COUNT
            invariant
                i <= TRACK_COUNT,
                self == old(self),
                old(self).wf(),
                forall|t: int| 0 <= t < i ==> #[trigger] old(self).tracks@[t].status_flags & 1 != 0,
            decreases TRACK_COUNT - i,
        {
            if self.tracks[i].status_flags & 1 == 0 {
                let mut t = self.tracks[i];
                t.status_flags = t.status_flags | 1;
                let ghost before = *self;
                self.tracks[i] = t;
                proof {
                    assert(same_links(before.channels@, self.channels@));
                    before.lemma_wf_same_links(self);
                    lemma_first_free_is(old(self).tracks@, 0, i as int);
                }
                return Some(i);
            }
            i = i + 1;
        }
        proof {
            lemma_first_free_none(old(self).tracks@, 0);
        }
        None
    }

    /// The track that sequence `seq_id` plays in its slot `id`, if any.
    pub fn get_sequence_track_id(&self, seq_id: usize, id: usize) -> (r: Option<usize>)
        requires
            self.wf(),
            seq_id < SEQUENCE_COUNT,
        ensures
            r == if id > 15 || self.sequences@[seq_id as int].tracks@[id as int] == NO_TRACK {
                None
            } else {
                Some(self.sequences@[seq_id as int].tracks@[id as int])
            },
            r matches Some(t) ==> t < TRACK_COUNT,
    {
        if id > 15 {
            return None;
        }
        let track_id = self.sequences[seq_id].tracks[id];
        if track_id == NO_TRACK {
            None
        } else {
            Some(track_id)
        }
    }
}

/// The channels of the list from `c`, in order, following at most `n`
/// links.
pub open spec fn chain(chs: Seq<Channel>, c: Option<usize>, n: nat) -> Seq<int>
    decreases n,
{
    match c {
        None => Seq::empty(),
        Some(id) => if n == 0 {
            Seq::empty()
        } else {
            seq![id as int] + chain(chs, chs[id as int].next, (n - 1) as nat)
        },
    }
}

/// The first channel on the list from `c`, within `n` channels, whose link
/// is `target`.
pub open spec fn pred_of(chs: Seq<Channel>, c: Option<usize>, target: usize, n: nat) -> Option<usize>
    decreases n,
{
    match c {
        None => None,
        Some(id) => if n == 0 {
            None
        } else if chs[id as int].next == Some(target) {
            Some(id)
        } else {
            pred_of(chs, chs[id as int].next, target, (n - 1) as nat)
        },
    }
}

pub proof fn lemma_pred_of(chs: Seq<Channel>, c: Option<usize>, target: usize, n: nat)
    requires
        chs.len() == CHANNEL_COUNT,
        ends_within(chs, c, n),
    ensures
        pred_of(chs, c, target, n) matches Some(p) ==> p < CHANNEL_COUNT && chs[p as int].next == Some(target),
    decreases n,
{
    if let Some(id) = c {
        if n > 0 && chs[id as int].next != Some(target) {
            lemma_pred_of(chs, chs[id as int].next, target, (n - 1) as nat);
        }
    }
}

/// Pointing channel `p` past its successor keeps every list finite.
pub proof fn lemma_ends_skip(a: Seq<Channel>, b: Seq<Channel>, p: int, x: Option<usize>, n: nat)
    requires
        a.len() == CHANNEL_COUNT,
        b.len() == CHANNEL_COUNT,
        0 <= p < CHANNEL_COUNT,
        a[p].next matches Some(q) && q < CHANNEL_COUNT && b[p].next == a[q as int].next,
        forall|i: int| 0 <= i < CHANNEL_COUNT && i != p ==> #[trigger] b[i].next == a[i].next,
        ends_within(a, x, n),
    ensures
        ends_within(b, x, n),
    decreases n,
{
    if let Some(id) = x {
        if id as int == p {
            let q = a[p].next->0;
            assert(ends_within(a, Some(q), (n - 1) as nat));
            assert(n >= 2);
            assert(ends_within(a, a[q as int].next, (n - 2) as nat));
            lemma_ends_more(a, a[q as int].next, (n - 2) as nat, (n - 1) as nat);
            lemma_ends_skip(a, b, p, a[q as int].next, (n - 1) as nat);
            assert(b[p].next == a[q as int].next);
        } else {
            assert(b[id as int].next == a[id as int].next);
            lemma_ends_skip(a, b, p, a[id as int].next, (n - 1) as nat);
        }
    }
}

/// Ending the list at channel `p` keeps every list finite.
pub proof fn lemma_ends_cut(a: Seq<Channel>, b: Seq<Channel>, p: int, x: Option<usize>, n: nat)
    requires
        a.len() == CHANNEL_COUNT,
        b.len() == CHANNEL_COUNT,
        0 <= p < CHANNEL_COUNT,
        b[p].next is None,
        forall|i: int| 0 <= i < CHANNEL_COUNT && i != p ==> #[trigger] b[i].next == a[i].next,
        ends_within(a, x, n),
    ensures
        ends_within(b, x, n),
    decreases n,
{
    if let Some(id) = x {
        if id as int != p {
            assert(b[id as int].next == a[id as int].next);
            lemma_ends_cut(a, b, p, a[id as int].next, (n - 1) as nat);
        } else {
            assert(ends_within(b, None, (n - 1) as nat));
        }
    }
}

/// Channel `c` taken off its track, when `unlink` holds: no priority, no
/// link owner.
pub open spec fn unlinked_chan(c: Channel, unlink: bool) -> Channel {
    if unlink {
        Channel { priority: 0, linked: false, linked_track: None, ..c }
    } else {
        c
    }
}

/// The channel records after channel `chan` leaves the list of its track:
/// the track's list starts past it when it is the first, else the first
/// channel linking to it on that list links past it.
pub open spec fn unlink_channels(chs: Seq<Channel>, trs: Seq<Track>, chan: int, unlink: bool) -> Seq<Channel> {
    let t = chs[chan].linked_track->0;
    let head = trs[t as int].chan_list;
    let chs1 = chs.update(chan, unlinked_chan(chs[chan], unlink));
    if head == Some(chan as usize) {
        chs1
    } else {
        match pred_of(chs, head, chan as usize, CHANNEL_COUNT as nat) {
            Some(p) => chs1.update(p as int, (Channel { next: chs[chan].next, ..chs1[p as int] })),
            None => chs1,
        }
    }
}

/// The track records after channel `chan` leaves the list of its track.
pub open spec fn unlink_tracks(chs: Seq<Channel>, trs: Seq<Track>, chan: int) -> Seq<Track> {
    let t = chs[chan].linked_track->0;
    if trs[t as int].chan_list == Some(chan as usize) {
        trs.update(t as int, (Track { chan_list: chs[chan].next, ..trs[t as int] }))
    } else {
        trs
    }
}

/// The order in which free channels are looked for.
pub const CHAN_ORDER: [usize; 16] = [4, 5, 6, 7, 2, 0, 3, 1, 8, 9, 10, 11, 14, 12, 15, 13];

pub open spec fn chan_order() -> Seq<usize> {
    seq![4usize, 5, 6, 7, 2, 0, 3, 1, 8, 9, 10, 11, 14, 12, 15, 13]
}

/// The volume divider shift of a divider setting.
pub const VOL_DIV: [u32; 4] = [0, 1, 2, 4];

pub open spec fn vol_shift(div: u8) -> u32 {
    if div == 0 {
        0
    } else if div == 1 {
        1
    } else if div == 2 {
        2
    } else {
        4
    }
}

/// The loudness a channel plays at, for comparing channels.
pub open spec fn eff_volume(c: Channel) -> u32 {
    ((c.volume as u32) << 4u32) >> vol_shift(c.volume_div)
}

/// Whether channel `a` is a better one to take than channel `b`: lower
/// priority, or as low and quieter.
pub open spec fn takes_over(a: Channel, b: Channel) -> bool {
    a.priority < b.priority || (a.priority == b.priority && eff_volume(a) < eff_volume(b))
}

/// The channel to take among the first `k` channels of the search order
/// that `mask` allows: the one of lowest priority, then lowest loudness,
/// the earliest on ties.
pub open spec fn alloc_pick(chs: Seq<Channel>, mask: u16, k: nat) -> Option<usize>
    decreases k,
{
    if k == 0 {
        None
    } else {
        let prev = alloc_pick(chs, mask, (k - 1) as nat);
        let id = chan_order()[k - 1];
        if mask & (1u16 << (id as u16)) == 0 {
            prev
        } else {
            match prev {
                None => Some(id),
                Some(r) => if takes_over(chs[id as int], chs[r as int]) {
                    Some(id)
                } else {
                    prev
                },
            }
        }
    }
}

pub proof fn lemma_alloc_pick(chs: Seq<Channel>, mask: u16, k: nat)
    requires
        k <= CHANNEL_COUNT,
    ensures
        alloc_pick(chs, mask, k) matches Some(r) ==> r < CHANNEL_COUNT,
    decreases k,
{
    if k > 0 {
        lemma_alloc_pick(chs, mask, (k - 1) as nat);
    }
}

/// A channel record freshly taken for track `track_id` at priority `prio`:
/// stopped, due to start, alone on its list, at full volume with the
/// default envelope, pitch and modulation.
pub open spec fn allocated_chan(c: Channel, prio: u8, track_id: usize) -> Channel {
    Channel {
        status_flags: (((c.status_flags & !0xF9u8) | 0x10) & !0x02u8) | 0x04,
        next: None,
        linked: true,
        linked_track: Some(track_id),
        note_length: 0,
        priority: prio,
        volume: 127,
        volume_div: 0,
        freq_base2: 60,
        freq_base1: 60,
        vol_base2: 127,
        pan_base2: 0,
        vol_base3: 0,
        vol_base1: 0,
        freq_base3: 0,
        pan_base3: 0,
        pan_base1: 127,
        freq_ramp_target: 0,
        freq_ramp_len: 0,
        freq_ramp_pos: 0,
        attack_rate: 0,
        decay_rate: 0xFFFF,
        sustain_rate: 127,
        release_rate: 0xFFFF,
        modulation_type: 0,
        modulation_depth: 0,
        modulation_range: 1,
        modulation_speed: 16,
        modulation_delay: 0,
        ..c
    }
}

impl SoundNitro {
    /// Takes channel `chan_id` off the list of its track, and off the track
    /// altogether (no priority, no owner) when `unlink` holds.
    pub fn unlink_channel(&mut self, chan_id: usize, unlink: bool)
        requires
            old(self).wf(),
            chan_id < CHANNEL_COUNT,
            old(self).channels@[chan_id as int].linked_track matches Some(t) && old(self).tracks@[t as int].chan_list is Some,
        ensures
            final(self).same_scalars(old(self)),
            final(self).wf(),
            final(self).channels@ == unlink_channels(old(self).channels@, old(self).tracks@, chan_id as int, unlink),
            final(self).tracks@ == unlink_tracks(old(self).channels@, old(self).tracks@, chan_id as int),
            final(self).sequences == old(self).sequences,
            final(self).alarms == old(self).alarms,
            final(self).cmd_queue@ == old(self).cmd_queue@,
    {
        let ghost chs = self.channels@;
        let ghost trs = self.tracks@;
        let track_id = self.channels[chan_id].linked_track.unwrap();
        let cn = self.channels[chan_id].next;
        proof {
            assert(ends_within(chs, Some(chan_id), CHANNEL_COUNT as nat));
            assert(ends_within(chs, trs[track_id as int].chan_list, CHANNEL_COUNT as nat));
            lemma_ends_more(chs, cn, (CHANNEL_COUNT - 1) as nat, CHANNEL_COUNT as nat);
        }

        if unlink {
            let mut c = self.channels[chan_id];
            c.priority = 0;
            c.linked = false;
            c.linked_track = None;
            self.channels[chan_id] = c;
        }
        let ghost chs1 = self.channels@;
        assert(chs1 == chs.update(chan_id as int, unlinked_chan(chs[chan_id as int], unlink)));
        assert(same_links(chs, chs1));

        let head = self.tracks[track_id].chan_list;
        let at_head = match head {
            Some(h) => h == chan_id,
            None => false,
        };
        if at_head {
            let mut t = self.tracks[track_id];
            t.chan_list = cn;
            self.tracks[track_id] = t;
            proof {
                assert forall|c: usize| c < CHANNEL_COUNT implies #[trigger] ends_within(self.channels@, Some(c), CHANNEL_COUNT as nat) by {
                    lemma_ends_same_links(chs, self.channels@, Some(c), CHANNEL_COUNT as nat);
                    assert(ends_within(chs, Some(c), CHANNEL_COUNT as nat));
                }
                assert forall|u: int| 0 <= u < TRACK_COUNT implies #[trigger] ends_within(self.channels@, self.tracks@[u].chan_list, CHANNEL_COUNT as nat) by {
                    lemma_ends_same_links(chs, self.channels@, self.tracks@[u].chan_list, CHANNEL_COUNT as nat);
                    assert(ends_within(chs, trs[u].chan_list, CHANNEL_COUNT as nat));
                }
            }
            return;
        }

        let mut c2 = head;
        let mut found: Option<usize> = None;
        let ghost mut fuel: nat = CHANNEL_COUNT as nat;
        proof {
            lemma_pred_of(chs, head, chan_id, CHANNEL_COUNT as nat);
        }
        loop
            invariant_except_break
                c2 is Some,
                found is None,
            invariant
                self.channels@ == chs1,
                self.tracks@ == trs,
                ends_within(chs, c2, fuel),
                fuel <= CHANNEL_COUNT,
                chs1.len() == CHANNEL_COUNT,
                same_links(chs, chs1),
                pred_of(chs, head, chan_id, CHANNEL_COUNT as nat) == pred_of(chs, c2, chan_id, fuel),
            ensures
                self.channels@ == chs1,
                self.tracks@ == trs,
                found == pred_of(chs, head, chan_id, CHANNEL_COUNT as nat),
            decreases fuel,
        {
            let id = c2.unwrap();
            let nx = self.channels[id].next;
            assert(chs1[id as int].next == chs[id as int].next);
            let hit = match nx {
                Some(x) => x == chan_id,
                None => false,
            };
            if hit {
                found = Some(id);
                break;
            }
            c2 = nx;
            proof {
                fuel = (fuel - 1) as nat;
            }
            if c2.is_none() {
                break;
            }
        }
        if let Some(p) = found {
            let mut c = self.channels[p];
            c.next = cn;
            self.channels[p] = c;
        }
        proof {
            assert(self.channels@ == unlink_channels(chs, trs, chan_id as int, unlink));
            match found {
                Some(pp) => {
                    assert(chs[pp as int].next == Some(chan_id));
                    assert(chs1[pp as int].next == Some(chan_id));
                    assert forall|x: Option<usize>| ends_within(chs, x, CHANNEL_COUNT as nat) implies #[trigger] ends_within(self.channels@, x, CHANNEL_COUNT as nat) by {
                        lemma_ends_same_links(chs, chs1, x, CHANNEL_COUNT as nat);
                        lemma_ends_skip(chs1, self.channels@, pp as int, x, CHANNEL_COUNT as nat);
                    }
                },
                None => {
                    assert forall|x: Option<usize>| ends_within(chs, x, CHANNEL_COUNT as nat) implies #[trigger] ends_within(self.channels@, x, CHANNEL_COUNT as nat) by {
                        lemma_ends_same_links(chs, chs1, x, CHANNEL_COUNT as nat);
                    }
                },
            }
            assert forall|c: usize| c < CHANNEL_COUNT implies #[trigger] ends_within(self.channels@, Some(c), CHANNEL_COUNT as nat) by {
                assert(ends_within(chs, Some(c), CHANNEL_COUNT as nat));
            }
            assert forall|u: int| 0 <= u < TRACK_COUNT implies #[trigger] ends_within(self.channels@, self.tracks@[u].chan_list, CHANNEL_COUNT as nat) by {
                assert(ends_within(chs, trs[u].chan_list, CHANNEL_COUNT as nat));
            }
        }
    }
}

/// Whether the channel that a note of priority `prio` would take, if it is
/// on a track's list, can be taken off it: it names its track and that
/// track has a list.
pub open spec fn pick_unlinkable(chs: Seq<Channel>, trs: Seq<Track>, mask: u16, prio: u8) -> bool {
    match alloc_pick(chs, mask, CHANNEL_COUNT as nat) {
        Some(p) => (prio >= chs[p as int].priority && chs[p as int].linked) ==> (chs[p as int].linked_track matches Some(t)
            && trs[t as int].chan_list is Some),
        None => true,
    }
}

impl SoundNitro {
    /// The channel to play a note of priority `prio` for track `track_id`
    /// on, among the channels `chanmask` allows but channels 1 and 3: the
    /// one the search order finds of lowest priority and loudness, if its
    /// priority is not above `prio`. It is taken off the list it was on,
    /// given to the track and set up fresh.
    pub fn allocate_channel(&mut self, chanmask: u16, prio: u8, _flag: bool, track_id: usize) -> (r: Option<usize>)
        requires
            old(self).wf(),
            track_id < TRACK_COUNT,
            pick_unlinkable(old(self).channels@, old(self).tracks@, chanmask & 0xFFF5, prio),
        ensures
            final(self).same_scalars(old(self)),
            final(self).wf(),
            r == match alloc_pick(old(self).channels@, chanmask & 0xFFF5, CHANNEL_COUNT as nat) {
                Some(p) => if prio < old(self).channels@[p as int].priority {
                    None
                } else {
                    Some(p)
                },
                None => None,
            },
            r is None ==> final(self).channels == old(self).channels && final(self).tracks == old(self).tracks,
            r matches Some(p) ==> {
                let linked = old(self).channels@[p as int].linked;
                let chs = if linked {
                    unlink_channels(old(self).channels@, old(self).tracks@, p as int, false)
                } else {
                    old(self).channels@
                };
                &&& final(self).channels@ == chs.update(p as int, allocated_chan(chs[p as int], prio, track_id))
                &&& final(self).tracks@ == if linked {
                    unlink_tracks(old(self).channels@, old(self).tracks@, p as int)
                } else {
                    old(self).tracks@
                }
            },
            final(self).sequences == old(self).sequences,
            final(self).alarms == old(self).alarms,
            final(self).cmd_queue@ == old(self).cmd_queue@,
    {
        let mask = chanmask & 0xFFF5;
        let order = CHAN_ORDER;
        assert(order@ == chan_order());
        let vdiv = VOL_DIV;
        assert(vdiv@ == seq![0u32, 1, 2, 4]);
        let mut ret: Option<usize> = None;
        let mut k: usize = 0;
        while k < CHANNEL_COUNT
            invariant
                k <= CHANNEL_COUNT,
                self == old(self),
                old(self).wf(),
                order@ == chan_order(),
                vdiv@ == seq![0u32, 1, 2, 4],
                ret == alloc_pick(self.channels@, mask, k as nat),
            decreases CHANNEL_COUNT - k,
        {
            proof {
                lemma_alloc_pick(self.channels@, mask, k as nat);
            }
            let id = order[k];
            if mask & (1u16 << (id as u16)) != 0 {
                match ret {
                    None => {
                        ret = Some(id);
                    },
                    Some(r) => {
                        let c = self.channels[id];
                        let rc = self.channels[r];
                        if c.priority < rc.priority {
                            ret = Some(id);
                        } else if c.priority == rc.priority {
                            let s1 = vdiv[c.volume_div as usize];
                            let s2 = vdiv[rc.volume_div as usize];
                            assert(s1 == vol_shift(c.volume_div) && s2 == vol_shift(rc.volume_div));
                            let vol1 = ((c.volume as u32) << 4u32) >> s1;
                            let vol2 = ((rc.volume as u32) << 4u32) >> s2;
                            if vol1 < vol2 {
                                ret = Some(id);
                            }
                        }
                    },
                }
            }
            k = k + 1;
        }
        proof {
            lemma_alloc_pick(self.channels@, mask, CHANNEL_COUNT as nat);
        }
        let r = match ret {
            None => {
                return None;
            },
            Some(r) => r,
        };
        if prio < self.channels[r].priority {
            return None;
        }
        if self.channels[r].linked {
            self.unlink_channel(r, false);
        }
        let ghost chs = self.channels@;
        let ghost mid = *self;
        let mut c = self.channels[r];
        c.status_flags = c.status_flags & !0xF9u8;
        c.status_flags = c.status_flags | 0x10;
        c.next = None;
        c.linked = true;
        c.linked_track = Some(track_id);
        c.note_length = 0;
        c.priority = prio;
        c.volume = 127;
        c.volume_div = 0;
        c.status_flags = c.status_flags & !0x02u8;
        c.status_flags = c.status_flags | 0x04;
        c.freq_base2 = 60;
        c.freq_base1 = 60;
        c.vol_base2 = 127;
        c.pan_base2 = 0;
        c.vol_base3 = 0;
        c.vol_base1 = 0;
        c.freq_base3 = 0;
        c.pan_base3 = 0;
        c.pan_base1 = 127;
        c.freq_ramp_target = 0;
        c.freq_ramp_len = 0;
        c.freq_ramp_pos = 0;
        self.channels[r] = c;
        proof {
            assert forall|x: Option<usize>| ends_within(chs, x, CHANNEL_COUNT as nat) implies #[trigger] ends_within(self.channels@, x, CHANNEL_COUNT as nat) by {
                lemma_ends_cut(chs, self.channels@, r as int, x, CHANNEL_COUNT as nat);
            }
            assert forall|q: usize| q < CHANNEL_COUNT implies #[trigger] ends_within(self.channels@, Some(q), CHANNEL_COUNT as nat) by {
                assert(ends_within(chs, Some(q), CHANNEL_COUNT as nat));
            }
            assert forall|u: int| 0 <= u < TRACK_COUNT implies #[trigger] ends_within(self.channels@, self.tracks@[u].chan_list, CHANNEL_COUNT as nat) by {
                assert(ends_within(chs, mid.tracks@[u].chan_list, CHANNEL_COUNT as nat));
            }
        }
        self.set_channel_attack_rate(r, 127);
        self.set_channel_decay_rate(r, 127);
        self.set_channel_sustain_rate(r, 127);
        self.set_channel_release_rate(r, 127);
        let ghost before = *self;
        let mut c = self.channels[r];
        c.modulation_type = 0;
        c.modulation_depth = 0;
        c.modulation_range = 1;
        c.modulation_speed = 16;
        c.modulation_delay = 0;
        self.channels[r] = c;
        proof {
            before.lemma_wf_same_links(self);
            assert(attack_rate_table()[0] == 0);
            assert(self.channels@ == chs.update(r as int, allocated_chan(chs[r as int], prio, track_id)));
        }
        Some(r)
    }
}

/// The decibel-like attenuation of each volume level, 0 to 127.
pub const BASE_VOLUME_TABLE: [i16; 128] = [
    -0x8000, -0x02D2, -0x02D1, -0x028B, -0x0259, -0x0232, -0x0212, -0x01F7, -0x01E0, -0x01CC, -0x01BA, -0x01A9, -0x019A, -0x018C, -0x017F, -0x0173, -0x0168, -0x015D, -0x0153, -0x014A, -0x0141,
    -0x0139, -0x0131, -0x0129, -0x0121, -0x011A, -0x0114, -0x010D, -0x0107, -0x0101, -0x00FB, -0x00F5, -0x00EF, -0x00EA, -0x00E5, -0x00E0, -0x00DB, -0x00D6, -0x00D2, -0x00CD, -0x00C9, -0x00C4,
    -0x00C0, -0x00BC, -0x00B8, -0x00B4, -0x00B0, -0x00AD, -0x00A9, -0x00A5, -0x00A2, -0x009E, -0x009B, -0x0098, -0x0095, -0x0091, -0x008E, -0x008B, -0x0088, -0x0085, -0x0082, -0x007F, -0x007D,
    -0x007A, -0x0077, -0x0074, -0x0072, -0x006F, -0x006D, -0x006A, -0x0067, -0x0065, -0x0063, -0x0060, -0x005E, -0x005B, -0x0059, -0x0057, -0x0055, -0x0052, -0x0050, -0x004E, -0x004C, -0x004A,
    -0x0048, -0x0046, -0x0044, -0x0042, -0x0040, -0x003E, -0x003C, -0x003A, -0x0038, -0x0036, -0x0034, -0x0032, -0x0031, -0x002F, -0x002D, -0x002B, -0x002A, -0x0028, -0x0026, -0x0024, -0x0023,
    -0x0021, -0x001F, -0x001E, -0x001C, -0x001B, -0x0019, -0x0017, -0x0016, -0x0014, -0x0013, -0x0011, -0x0010, -0x000E, -0x000D, -0x000B, -0x000A, -0x0008, -0x0007, -0x0006, -0x0004, -0x0003,
    -0x0001, 0x0000,
];

pub open spec fn base_volume_table() -> Seq<i16> {
    seq![
        -0x8000i16, -0x02D2i16, -0x02D1i16, -0x028Bi16, -0x0259i16, -0x0232i16, -0x0212i16, -0x01F7i16, -0x01E0i16, -0x01CCi16, -0x01BAi16, -0x01A9i16, -0x019Ai16, -0x018Ci16, -0x017Fi16, -0x0173i16, -0x0168i16, -0x015Di16, -0x0153i16, -0x014Ai16, -0x0141i16,
        -0x0139i16, -0x0131i16, -0x0129i16, -0x0121i16, -0x011Ai16, -0x0114i16, -0x010Di16, -0x0107i16, -0x0101i16, -0x00FBi16, -0x00F5i16, -0x00EFi16, -0x00EAi16, -0x00E5i16, -0x00E0i16, -0x00DBi16, -0x00D6i16, -0x00D2i16, -0x00CDi16, -0x00C9i16, -0x00C4i16,
        -0x00C0i16, -0x00BCi16, -0x00B8i16, -0x00B4i16, -0x00B0i16, -0x00ADi16, -0x00A9i16, -0x00A5i16, -0x00A2i16, -0x009Ei16, -0x009Bi16, -0x0098i16, -0x0095i16, -0x0091i16, -0x008Ei16, -0x008Bi16, -0x0088i16, -0x0085i16, -0x0082i16, -0x007Fi16, -0x007Di16,
        -0x007Ai16, -0x0077i16, -0x0074i16, -0x0072i16, -0x006Fi16, -0x006Di16, -0x006Ai16, -0x0067i16, -0x0065i16, -0x0063i16, -0x0060i16, -0x005Ei16, -0x005Bi16, -0x0059i16, -0x0057i16, -0x0055i16, -0x0052i16, -0x0050i16, -0x004Ei16, -0x004Ci16, -0x004Ai16,
        -0x0048i16, -0x0046i16, -0x0044i16, -0x0042i16, -0x0040i16, -0x003Ei16, -0x003Ci16, -0x003Ai16, -0x0038i16, -0x0036i16, -0x0034i16, -0x0032i16, -0x0031i16, -0x002Fi16, -0x002Di16, -0x002Bi16, -0x002Ai16, -0x0028i16, -0x0026i16, -0x0024i16, -0x0023i16,
        -0x0021i16, -0x001Fi16, -0x001Ei16, -0x001Ci16, -0x001Bi16, -0x0019i16, -0x0017i16, -0x0016i16, -0x0014i16, -0x0013i16, -0x0011i16, -0x0010i16, -0x000Ei16, -0x000Di16, -0x000Bi16, -0x000Ai16, -0x0008i16, -0x0007i16, -0x0006i16, -0x0004i16, -0x0003i16,
        -0x0001i16, 0x0000i16
    ]
}

/// The attenuation of volume level `v`, levels past 127 counting as 127.
pub open spec fn base_volume(v: usize) -> int {
    if v > 127 {
        base_volume_table()[127] as int
    } else {
        base_volume_table()[v as int] as int
    }
}

/// `f` applied, in order, to the channels numbered `ids`.
pub open spec fn apply_along(chs: Seq<Channel>, ids: Seq<int>, f: spec_fn(Channel) -> Channel) -> Seq<Channel>
    decreases ids.len(),
{
    if ids.len() == 0 {
        chs
    } else {
        let prev = apply_along(chs, ids.drop_last(), f);
        if 0 <= ids.last() < prev.len() {
            prev.update(ids.last(), f(prev[ids.last()]))
        } else {
            prev
        }
    }
}

pub proof fn lemma_apply_along_len(chs: Seq<Channel>, ids: Seq<int>, f: spec_fn(Channel) -> Channel)
    ensures
        apply_along(chs, ids, f).len() == chs.len(),
    decreases ids.len(),
{
    if ids.len() > 0 {
        lemma_apply_along_len(chs, ids.drop_last(), f);
    }
}

pub proof fn lemma_chain_unfold(chs: Seq<Channel>, id: usize, n: nat)
    requires
        n > 0,
    ensures
        chain(chs, Some(id), n) == seq![id as int] + chain(chs, chs[id as int].next, (n - 1) as nat),
{
}

pub proof fn lemma_chain_same_links(a: Seq<Channel>, b: Seq<Channel>, c: Option<usize>, n: nat)
    requires
        same_links(a, b),
        a.len() == CHANNEL_COUNT,
        ends_within(a, c, n),
    ensures
        chain(a, c, n) == chain(b, c, n),
    decreases n,
{
    if let Some(id) = c {
        assert(a[id as int].next == b[id as int].next);
        lemma_chain_same_links(a, b, a[id as int].next, (n - 1) as nat);
    }
}

/// The channel links kept by `f`.
pub open spec fn keeps_links(f: spec_fn(Channel) -> Channel) -> bool {
    forall|c: Channel| (#[trigger] f(c)).next == c.next
}

pub proof fn lemma_apply_along_links(chs: Seq<Channel>, ids: Seq<int>, f: spec_fn(Channel) -> Channel)
    requires
        keeps_links(f),
        forall|i: int| 0 <= i < ids.len() ==> 0 <= #[trigger] ids[i] < chs.len(),
    ensures
        same_links(chs, apply_along(chs, ids, f)),
    decreases ids.len(),
{
    if ids.len() > 0 {
        lemma_apply_along_links(chs, ids.drop_last(), f);
        lemma_apply_along_len(chs, ids.drop_last(), f);
        let prev = apply_along(chs, ids.drop_last(), f);
        assert(f(prev[ids.last()]).next == prev[ids.last()].next);
    }
}

pub proof fn lemma_chain_in_range(chs: Seq<Channel>, c: Option<usize>, n: nat)
    requires
        ends_within(chs, c, n),
    ensures
        forall|i: int| 0 <= i < chain(chs, c, n).len() ==> 0 <= #[trigger] chain(chs, c, n)[i] < CHANNEL_COUNT,
        chain(chs, c, n).len() <= n,
    decreases n,
{
    if let Some(id) = c {
        lemma_chain_in_range(chs, chs[id as int].next, (n - 1) as nat);
    }
}

pub proof fn lemma_apply_along_keeps(chs: Seq<Channel>, ids: Seq<int>, f: spec_fn(Channel) -> Channel, p: spec_fn(Channel) -> bool)
    requires
        forall|c: Channel| #[trigger] p(c) ==> p(f(c)),
        forall|i: int| 0 <= i < chs.len() ==> #[trigger] p(chs[i]),
    ensures
        forall|i: int| 0 <= i < chs.len() ==> #[trigger] p(apply_along(chs, ids, f)[i]),
    decreases ids.len(),
{
    if ids.len() > 0 {
        lemma_apply_along_keeps(chs, ids.drop_last(), f, p);
        lemma_apply_along_len(chs, ids.drop_last(), f);
        let prev = apply_along(chs, ids.drop_last(), f);
        if 0 <= ids.last() < prev.len() {
            assert(p(prev[ids.last()]));
        }
    }
}

/// A channel whose link owner is a valid track and whose volume divider
/// is a valid setting.
pub open spec fn chan_refs_ok(c: Channel) -> bool {
    (c.linked_track matches Some(t) ==> t < TRACK_COUNT) && c.volume_div <= 3
}

/// A channel one tick on: its note length counted down (to zero) and its
/// pitch sweep moved on, unless the sweep is held (flag 2).
pub open spec fn ticked(c: Channel) -> Channel {
    Channel {
        note_length: if c.note_length > 0 { (c.note_length - 1) as i32 } else { c.note_length },
        freq_ramp_pos: if c.status_flags & 4 == 0 && c.freq_ramp_pos < c.freq_ramp_len {
            (c.freq_ramp_pos + 1) as i32
        } else {
            c.freq_ramp_pos
        },
        ..c
    }
}

/// A channel taken off its track: no link owner.
pub open spec fn detached(c: Channel) -> Channel {
    Channel { linked: false, linked_track: None, ..c }
}

/// The attenuation a track's channels get from the sequence volume, the
/// track volume and its expression.
pub open spec fn release_vol3(q: Sequence, t: Track) -> int {
    let v = base_volume(q.volume) + base_volume(t.volume) + base_volume(t.expression);
    if v < -0x8000 {
        -0x8000
    } else {
        v
    }
}

/// The volume offset a track's channels get.
pub open spec fn release_vol1(q: Sequence, t: Track) -> int {
    let v = t.track_unk0a as int + q.seq_unk06 as int;
    if v < -0x8000 {
        -0x8000
    } else {
        v
    }
}

/// The pitch a track's channels get: its frequency bent by its pitch bend
/// over its bend range.
pub open spec fn release_freq(t: Track) -> i32 {
    (t.frequency as i32 + (((t.pitch_bend as i32 * (t.pitch_bend_range as i32 * 64)) as i32) >> 7i32)) as i32
}

/// The pan a track's channels get, scaled and offset, within -128 to 127.
pub open spec fn release_pan(t: Track) -> int {
    let p0 = t.pan as i32;
    let p1 = if t.track_unk01 != 0x7F {
        (((p0 * t.track_unk01 as i32) + 64) as i32) >> 7i32
    } else {
        p0
    };
    let p2 = p1 + t.track_unk09 as int;
    if p2 < -0x80 {
        -0x80
    } else if p2 > 0x7F {
        0x7F
    } else {
        p2
    }
}

/// A channel of track `t` of sequence `q` after the track passes its
/// settings on: the volume offset always, the rest unless the channel is
/// releasing; a channel with no note length left starts releasing when
/// `flag` holds.
pub open spec fn released(c: Channel, q: Sequence, t: Track, flag: bool) -> Channel {
    let c1 = Channel { vol_base1: release_vol1(q, t) as i16, ..c };
    if c.vol_ramp_phase != 3 {
        let c2 = Channel {
            vol_base3: release_vol3(q, t) as i16,
            freq_base3: release_freq(t) as i16,
            pan_base3: release_pan(t) as i8,
            pan_base1: t.track_unk01,
            modulation_type: t.modulation_type,
            modulation_speed: t.modulation_speed,
            modulation_depth: t.modulation_depth,
            modulation_range: t.modulation_range,
            modulation_delay: t.modulation_delay,
            ..c1
        };
        if c.note_length == 0 && flag {
            Channel { priority: 1, vol_ramp_phase: 3, ..c2 }
        } else {
            c2
        }
    } else {
        c1
    }
}

/// A channel of a finished track: a playing channel (flag 0) releases,
/// at the release rate of `rate` when that is not negative.
pub open spec fn finished(c: Channel, rate: i32) -> Channel {
    if c.status_flags & 1 != 0 {
        Channel {
            release_rate: if rate >= 0 {
                spec_calc_rate((rate % 256) as int) as u16
            } else {
                c.release_rate
            },
            priority: 1,
            vol_ramp_phase: 3,
            ..c
        }
    } else {
        c
    }
}

impl SoundNitro {
    /// The channels on the list of track `t`, in order.
    pub open spec fn track_chain(&self, t: int) -> Seq<int> {
        chain(self.channels@, self.tracks@[t].chan_list, CHANNEL_COUNT as nat)
    }

    /// Takes every channel on the list of track `track_id` off the track
    /// and empties the list.
    pub fn unlink_track_channels(&mut self, track_id: usize)
        requires
            old(self).wf(),
            track_id < TRACK_COUNT,
        ensures
            final(self).same_scalars(old(self)),
            final(self).wf(),
            final(self).channels@ == apply_along(old(self).channels@, old(self).track_chain(track_id as int), |c: Channel| detached(c)),
            final(self).tracks@ == old(self).tracks@.update(track_id as int, (Track { chan_list: None, ..old(self).tracks@[track_id as int] })),
            final(self).sequences == old(self).sequences,
            final(self).alarms == old(self).alarms,
            final(self).cmd_queue@ == old(self).cmd_queue@,
    {
        let ghost chs = self.channels@;
        let ghost f = |c: Channel| detached(c);
        let ghost ids = old(self).track_chain(track_id as int);
        let mut cur = self.tracks[track_id].chan_list;
        let ghost mut fuel: nat = CHANNEL_COUNT as nat;
        let ghost mut k: int = 0;
        proof {
            lemma_chain_in_range(chs, cur, fuel);
        }
        while cur.is_some()
            invariant
                chs == old(self).channels@,
                ids == chain(chs, old(self).tracks@[track_id as int].chan_list, CHANNEL_COUNT as nat),
                forall|i: int| 0 <= i < ids.len() ==> 0 <= #[trigger] ids[i] < CHANNEL_COUNT,
                ends_within(chs, cur, fuel),
                0 <= k <= ids.len(),
                ids.subrange(k, ids.len() as int) == chain(chs, cur, fuel),
                self.channels@ == apply_along(chs, ids.take(k), f),
                self.tracks == old(self).tracks,
                self.sequences == old(self).sequences,
                self.alarms == old(self).alarms,
                self.cmd_queue@ == old(self).cmd_queue@,
                self.same_scalars(old(self)),
                keeps_links(f),
                f == (|c: Channel| detached(c)),
            decreases fuel,
        {
            let id = cur.unwrap();
            proof {
                assert(fuel > 0);
                lemma_chain_unfold(chs, id, fuel);
                assert(chain(chs, cur, fuel).len() >= 1);
                assert(k < ids.len());
                assert(ids[k] == id as int) by {
                    assert(ids.subrange(k, ids.len() as int)[0] == id as int);
                }
                assert(ids.take(k + 1).drop_last() =~= ids.take(k));
                lemma_apply_along_links(chs, ids.take(k), f);
                lemma_apply_along_len(chs, ids.take(k), f);
            }
            let mut c = self.channels[id];
            c.linked = false;
            c.linked_track = None;
            self.channels[id] = c;
            cur = c.next;
            proof {
                assert(self.channels@ == apply_along(chs, ids.take(k + 1), f));
                assert(ids.subrange(k + 1, ids.len() as int) =~= ids.subrange(k, ids.len() as int).drop_first());
                k = k + 1;
                fuel = (fuel - 1) as nat;
            }
        }
        proof {
            assert(ids.take(k) =~= ids);
            lemma_apply_along_links(chs, ids, f);
            lemma_apply_along_len(chs, ids, f);
        }
        let ghost mid = *self;
        let mut t = self.tracks[track_id];
        t.chan_list = None;
        self.tracks[track_id] = t;
        proof {
            assert forall|c: usize| c < CHANNEL_COUNT implies #[trigger] ends_within(self.channels@, Some(c), CHANNEL_COUNT as nat) by {
                lemma_ends_same_links(chs, self.channels@, Some(c), CHANNEL_COUNT as nat);
                assert(ends_within(chs, Some(c), CHANNEL_COUNT as nat));
            }
            assert forall|u: int| 0 <= u < TRACK_COUNT implies #[trigger] ends_within(self.channels@, self.tracks@[u].chan_list, CHANNEL_COUNT as nat) by {
                lemma_ends_same_links(chs, self.channels@, self.tracks@[u].chan_list, CHANNEL_COUNT as nat);
                if u != track_id {
                    assert(ends_within(chs, old(self).tracks@[u].chan_list, CHANNEL_COUNT as nat));
                }
            }
            let p = |c: Channel| chan_refs_ok(c);
            assert forall|c: int| 0 <= c < chs.len() implies #[trigger] p(chs[c]) by {
                assert(old(self).channels@[c].volume_div <= 3);
            }
            lemma_apply_along_keeps(chs, ids, f, p);
            assert forall|c: int| 0 <= c < CHANNEL_COUNT implies ((#[trigger] self.channels@[c]).linked_track matches Some(t) ==> t < TRACK_COUNT) by {
                assert(p(self.channels@[c]));
            }
            assert forall|c: int| 0 <= c < CHANNEL_COUNT implies (#[trigger] self.channels@[c]).volume_div <= 3 by {
                assert(p(self.channels@[c]));
            }
        }
    }
    /// A tick of the channels of track `track_id`: each counts its note
    /// length down to zero and moves its pitch sweep on unless held.
    pub fn tick_track_channels(&mut self, track_id: usize)
        requires
            old(self).wf(),
            track_id < TRACK_COUNT,
        ensures
            final(self).same_scalars(old(self)),
            final(self).wf(),
            final(self).channels@ == apply_along(old(self).channels@, old(self).track_chain(track_id as int), |c: Channel| ticked(c)),
            final(self).tracks == old(self).tracks,
            final(self).sequences == old(self).sequences,
            final(self).alarms == old(self).alarms,
            final(self).cmd_queue@ == old(self).cmd_queue@,
    {
        let ghost chs = self.channels@;
        let ghost f = |c: Channel| ticked(c);
        let ghost ids = old(self).track_chain(track_id as int);
        let mut cur = self.tracks[track_id].chan_list;
        let ghost mut fuel: nat = CHANNEL_COUNT as nat;
        let ghost mut k: int = 0;
        proof {
            lemma_chain_in_range(chs, cur, fuel);
        }
        while cur.is_some()
            invariant
                chs == old(self).channels@,
                ids == chain(chs, old(self).tracks@[track_id as int].chan_list, CHANNEL_COUNT as nat),
                forall|i: int| 0 <= i < ids.len() ==> 0 <= #[trigger] ids[i] < CHANNEL_COUNT,
                ends_within(chs, cur, fuel),
                0 <= k <= ids.len(),
                ids.subrange(k, ids.len() as int) == chain(chs, cur, fuel),
                self.channels@ == apply_along(chs, ids.take(k), f),
                self.tracks == old(self).tracks,
                self.sequences == old(self).sequences,
                self.alarms == old(self).alarms,
                self.cmd_queue@ == old(self).cmd_queue@,
                self.same_scalars(old(self)),
                keeps_links(f),
                f == (|c: Channel| ticked(c)),
            decreases fuel,
        {
            let id = cur.unwrap();
            proof {
                assert(fuel > 0);
                lemma_chain_unfold(chs, id, fuel);
                assert(chain(chs, cur, fuel).len() >= 1);
                assert(k < ids.len());
                assert(ids[k] == id as int) by {
                    assert(ids.subrange(k, ids.len() as int)[0] == id as int);
                }
                assert(ids.take(k + 1).drop_last() =~= ids.take(k));
                lemma_apply_along_links(chs, ids.take(k), f);
                lemma_apply_along_len(chs, ids.take(k), f);
            }
            let mut c = self.channels[id];
            if c.note_length > 0 {
                c.note_length = c.note_length - 1;
            }
            if c.status_flags & 4 == 0 && c.freq_ramp_pos < c.freq_ramp_len {
                c.freq_ramp_pos = c.freq_ramp_pos + 1;
            }
            self.channels[id] = c;
            cur = c.next;
            proof {
                assert(self.channels@ == apply_along(chs, ids.take(k + 1), f));
                assert(ids.subrange(k + 1, ids.len() as int) =~= ids.subrange(k, ids.len() as int).drop_first());
                k = k + 1;
                fuel = (fuel - 1) as nat;
            }
        }
        proof {
            assert(ids.take(k) =~= ids);
            lemma_apply_along_links(chs, ids, f);
            lemma_apply_along_len(chs, ids, f);
        }
        proof {
            assert forall|c: usize| c < CHANNEL_COUNT implies #[trigger] ends_within(self.channels@, Some(c), CHANNEL_COUNT as nat) by {
                lemma_ends_same_links(chs, self.channels@, Some(c), CHANNEL_COUNT as nat);
                assert(ends_within(chs, Some(c), CHANNEL_COUNT as nat));
            }
            assert forall|u: int| 0 <= u < TRACK_COUNT implies #[trigger] ends_within(self.channels@, self.tracks@[u].chan_list, CHANNEL_COUNT as nat) by {
                lemma_ends_same_links(chs, self.channels@, self.tracks@[u].chan_list, CHANNEL_COUNT as nat);
                assert(ends_within(chs, old(self).tracks@[u].chan_list, CHANNEL_COUNT as nat));
            }
            let p = |c: Channel| chan_refs_ok(c);
            assert forall|c: int| 0 <= c < chs.len() implies #[trigger] p(chs[c]) by {
                assert(old(self).channels@[c].volume_div <= 3);
            }
            lemma_apply_along_keeps(chs, ids, f, p);
            assert forall|c: int| 0 <= c < CHANNEL_COUNT implies ((#[trigger] self.channels@[c]).linked_track matches Some(t) ==> t < TRACK_COUNT) by {
                assert(p(self.channels@[c]));
            }
            assert forall|c: int| 0 <= c < CHANNEL_COUNT implies (#[trigger] self.channels@[c]).volume_div <= 3 by {
                assert(p(self.channels@[c]));
            }
        }
    }
}

/// Shifting right by 7 keeps a number of a few million within ±20000.
proof fn lemma_shr7_bounds(b: i32)
    by (bit_vector)
    requires
        -2100000 <= b <= 2100000,
    ensures
        -20000 <= b >> 7i32 <= 20000,
{
}

/// Shifting right by 8 keeps a signed 32-bit number within ±2^23.
proof fn lemma_shr8_bounds(b: i32)
    by (bit_vector)
    ensures
        -0x80_0000 <= b >> 8i32 <= 0x7F_FFFF,
{
}

impl SoundNitro {
    /// Passes the settings of track `track_id` of sequence `seq_id` on to
    /// the channels on its list, in order; with `flag`, channels with no
    /// note length left start releasing.
    pub fn release_track(&mut self, track_id: usize, seq_id: usize, flag: bool)
        requires
            old(self).wf(),
            track_id < TRACK_COUNT,
            seq_id < SEQUENCE_COUNT,
        ensures
            final(self).wf(),
            final(self).same_but_channels(old(self)),
            final(self).channels@ == apply_along(
                old(self).channels@,
                old(self).track_chain(track_id as int),
                |c: Channel| released(c, old(self).sequences@[seq_id as int], old(self).tracks@[track_id as int], flag),
            ),
    {
        let q = self.sequences[seq_id];
        let t = self.tracks[track_id];
        let table = BASE_VOLUME_TABLE;
        assert(table@ == base_volume_table());
        let qv: usize = if q.volume > 127 {
            127
        } else {
            q.volume
        };
        let tv: usize = if t.volume > 127 {
            127
        } else {
            t.volume
        };
        let te: usize = if t.expression > 127 {
            127
        } else {
            t.expression
        };
        let sum3 = table[qv] as i32 + table[tv] as i32 + table[te] as i32;
        let volbase3: i32 = if sum3 < -0x8000 {
            -0x8000
        } else {
            sum3
        };
        let sum1 = t.track_unk0a as i32 + q.seq_unk06 as i32;
        let volbase1: i32 = if sum1 < -0x8000 {
            -0x8000
        } else {
            sum1
        };
        let range64 = t.pitch_bend_range as i32 * 64;
        assert(-2100000 <= (t.pitch_bend as i32) * range64 <= 2100000) by (nonlinear_arith)
            requires
                -128 <= t.pitch_bend <= 127,
                0 <= range64 <= 16320,
        ;
        let bend = t.pitch_bend as i32 * range64;
        proof {
            lemma_shr7_bounds(bend);
        }
        let freqbase = t.frequency as i32 + (bend >> 7i32);
        let mut panbase = t.pan as i32;
        if t.track_unk01 != 0x7F {
            assert(-40000 <= panbase * (t.track_unk01 as i32) <= 40000) by (nonlinear_arith)
                requires
                    -128 <= panbase <= 127,
                    0 <= t.track_unk01 <= 255,
            ;
            let scaled = (panbase * t.track_unk01 as i32) + 64;
            proof {
                lemma_shr7_bounds(scaled);
            }
            panbase = scaled >> 7i32;
        }
        panbase = panbase + t.track_unk09 as i32;
        let panbase: i32 = if panbase < -0x80 {
            -0x80
        } else if panbase > 0x7F {
            0x7F
        } else {
            panbase
        };
        assert(volbase3 == release_vol3(q, t));
        assert(volbase1 == release_vol1(q, t));
        assert(freqbase == release_freq(t));
        assert(panbase == release_pan(t));

        let ghost chs = self.channels@;
        let ghost f = |c: Channel| released(c, q, t, flag);
        let ghost ids = old(self).track_chain(track_id as int);
        let mut cur = t.chan_list;
        let ghost mut fuel: nat = CHANNEL_COUNT as nat;
        let ghost mut k: int = 0;
        proof {
            lemma_chain_in_range(chs, cur, fuel);
        }
        while cur.is_some()
            invariant
                chs == old(self).channels@,
                ids == chain(chs, old(self).tracks@[track_id as int].chan_list, CHANNEL_COUNT as nat),
                forall|i: int| 0 <= i < ids.len() ==> 0 <= #[trigger] ids[i] < CHANNEL_COUNT,
                ends_within(chs, cur, fuel),
                0 <= k <= ids.len(),
                ids.subrange(k, ids.len() as int) == chain(chs, cur, fuel),
                self.channels@ == apply_along(chs, ids.take(k), f),
                self.same_but_channels(old(self)),
                keeps_links(f),
                f == (|c: Channel| released(c, q, t, flag)),
                volbase3 == release_vol3(q, t),
                volbase1 == release_vol1(q, t),
                freqbase == release_freq(t),
                panbase == release_pan(t),
            decreases fuel,
        {
            let id = cur.unwrap();
            proof {
                assert(fuel > 0);
                lemma_chain_unfold(chs, id, fuel);
                assert(chain(chs, cur, fuel).len() >= 1);
                assert(k < ids.len());
                assert(ids[k] == id as int) by {
                    assert(ids.subrange(k, ids.len() as int)[0] == id as int);
                }
                assert(ids.take(k + 1).drop_last() =~= ids.take(k));
                lemma_apply_along_links(chs, ids.take(k), f);
                lemma_apply_along_len(chs, ids.take(k), f);
            }
            let mut c = self.channels[id];
            let ghost before = c;
            c.vol_base1 = volbase1 as i16;
            if c.vol_ramp_phase != 3 {
                c.vol_base3 = volbase3 as i16;
                c.freq_base3 = freqbase as i16;
                c.pan_base3 = panbase as i8;
                c.pan_base1 = t.track_unk01;
                c.modulation_type = t.modulation_type;
                c.modulation_speed = t.modulation_speed;
                c.modulation_depth = t.modulation_depth;
                c.modulation_range = t.modulation_range;
                c.modulation_delay = t.modulation_delay;
                if c.note_length == 0 && flag {
                    c.priority = 1;
                    c.vol_ramp_phase = 3;
                }
            }
            assert(c == f(before));
            self.channels[id] = c;
            cur = c.next;
            proof {
                assert(self.channels@ == apply_along(chs, ids.take(k + 1), f));
                assert(ids.subrange(k + 1, ids.len() as int) =~= ids.subrange(k, ids.len() as int).drop_first());
                k = k + 1;
                fuel = (fuel - 1) as nat;
            }
        }
        proof {
            assert(ids.take(k) =~= ids);
            lemma_apply_along_links(chs, ids, f);
            lemma_apply_along_len(chs, ids, f);
            let p = |c: Channel| chan_refs_ok(c);
            assert forall|c: int| 0 <= c < chs.len() implies #[trigger] p(chs[c]) by {
                assert(old(self).channels@[c].volume_div <= 3);
            }
            lemma_apply_along_keeps(chs, ids, f, p);
            assert forall|c: int| 0 <= c < CHANNEL_COUNT implies ((#[trigger] self.channels@[c]).linked_track matches Some(t) ==> t < TRACK_COUNT) by {
                assert(p(self.channels@[c]));
            }
            assert forall|c: int| 0 <= c < CHANNEL_COUNT implies (#[trigger] self.channels@[c]).volume_div <= 3 by {
                assert(p(self.channels@[c]));
            }
            old(self).lemma_wf_same_links(self);
        }
    }
}

/// The channel records after track `t` of sequence `q` is finished with
/// release rate `rate`: its settings passed on, then its playing channels
/// released.
pub open spec fn finish_channels(chs: Seq<Channel>, ids: Seq<int>, q: Sequence, t: Track, rate: i32) -> Seq<Channel> {
    apply_along(apply_along(chs, ids, |c: Channel| released(c, q, t, false)), ids, |c: Channel| finished(c, rate))
}

impl SoundNitro {
    /// Finishes track `track_id` of sequence `seq_id`: passes its settings
    /// on, then releases its playing channels, at release rate `rate` when
    /// that is not negative.
    pub fn finish_track(&mut self, track_id: usize, seq_id: usize, rate: i32)
        requires
            old(self).wf(),
            track_id < TRACK_COUNT,
            seq_id < SEQUENCE_COUNT,
        ensures
            final(self).wf(),
            final(self).same_but_channels(old(self)),
            final(self).channels@ == finish_channels(
                old(self).channels@,
                old(self).track_chain(track_id as int),
                old(self).sequences@[seq_id as int],
                old(self).tracks@[track_id as int],
                rate,
            ),
    {
        let ghost ids = old(self).track_chain(track_id as int);
        let ghost g = |c: Channel| released(c, old(self).sequences@[seq_id as int], old(self).tracks@[track_id as int], false);
        self.release_track(track_id, seq_id, false);
        let ghost chs = self.channels@;
        proof {
            lemma_chain_in_range(old(self).channels@, old(self).tracks@[track_id as int].chan_list, CHANNEL_COUNT as nat);
            lemma_apply_along_links(old(self).channels@, ids, g);
            lemma_chain_same_links(old(self).channels@, chs, old(self).tracks@[track_id as int].chan_list, CHANNEL_COUNT as nat);
        }
        let ghost f = |c: Channel| finished(c, rate);
        let mut cur = self.tracks[track_id].chan_list;
        let ghost mut fuel: nat = CHANNEL_COUNT as nat;
        let ghost mut k: int = 0;
        while cur.is_some()
            invariant
                chs.len() == CHANNEL_COUNT,
                ids == chain(chs, old(self).tracks@[track_id as int].chan_list, CHANNEL_COUNT as nat),
                forall|i: int| 0 <= i < ids.len() ==> 0 <= #[trigger] ids[i] < CHANNEL_COUNT,
                ends_within(chs, cur, fuel),
                0 <= k <= ids.len(),
                ids.subrange(k, ids.len() as int) == chain(chs, cur, fuel),
                self.channels@ == apply_along(chs, ids.take(k), f),
                self.same_but_channels(old(self)),
                self.wf(),
                keeps_links(f),
                f == (|c: Channel| finished(c, rate)),
            decreases fuel,
        {
            let id = cur.unwrap();
            proof {
                assert(fuel > 0);
                lemma_chain_unfold(chs, id, fuel);
                assert(chain(chs, cur, fuel).len() >= 1);
                assert(k < ids.len());
                assert(ids[k] == id as int) by {
                    assert(ids.subrange(k, ids.len() as int)[0] == id as int);
                }
                assert(ids.take(k + 1).drop_last() =~= ids.take(k));
                lemma_apply_along_links(chs, ids.take(k), f);
                lemma_apply_along_len(chs, ids.take(k), f);
            }
            let ghost prev = self.channels@[id as int];
            if self.channels[id].status_flags & 1 != 0 {
                if rate >= 0 {
                    self.set_channel_release_rate(id, rate % 256);
                }
                let ghost before = *self;
                let mut c = self.channels[id];
                c.priority = 1;
                c.vol_ramp_phase = 3;
                self.channels[id] = c;
                proof {
                    before.lemma_wf_same_links(self);
                }
            }
            assert(self.channels@[id as int] == f(prev));
            cur = self.channels[id].next;
            proof {
                assert(self.channels@ == apply_along(chs, ids.take(k + 1), f));
                assert(ids.subrange(k + 1, ids.len() as int) =~= ids.subrange(k, ids.len() as int).drop_first());
                k = k + 1;
                fuel = (fuel - 1) as nat;
            }
        }
        proof {
            assert(ids.take(k) =~= ids);
        }
    }
}

/// Two sequence records that differ at most in their track slots.
pub open spec fn same_but_slots(a: Sequence, b: Sequence) -> bool {
    &&& a.status_flags == b.status_flags
    &&& a.id == b.id
    &&& a.seq_unk02 == b.seq_unk02
    &&& a.seq_unk03 == b.seq_unk03
    &&& a.pan == b.pan
    &&& a.volume == b.volume
    &&& a.seq_unk06 == b.seq_unk06
    &&& a.tempo == b.tempo
    &&& a.seq_unk1a == b.seq_unk1a
    &&& a.tick_counter == b.tick_counter
    &&& a.sbnk_addr == b.sbnk_addr
}

/// A track record once its sequence lets it go: free (flag 0 clear), with
/// no channels.
pub open spec fn freed_track(t: Track) -> Track {
    Track { status_flags: t.status_flags & !1u8, chan_list: None, ..t }
}

/// Clearing the free flag twice clears it once; setting flag 7 twice sets
/// it once.
proof fn lemma_free_flag(x: u8)
    by (bit_vector)
    ensures
        (x & !1u8) & !1u8 == x & !1u8,
        (x & !1u8) & 1 == 0,
        (x | 0x80u8) | 0x80u8 == x | 0x80u8,
{
}

proof fn lemma_flag7_twice(x: u8)
    ensures
        (x | 0x80u8) | 0x80u8 == x | 0x80u8,
{
    lemma_free_flag(x);
}

/// The channel and track records after the track numbered `slot`, if it
/// is one, is finished as a track of sequence `q`, its channels taken off
/// it and the track freed.
pub open spec fn finish_slot(chs: Seq<Channel>, trs: Seq<Track>, q: Sequence, slot: usize) -> (Seq<Channel>, Seq<Track>) {
    if slot == NO_TRACK || slot >= TRACK_COUNT {
        (chs, trs)
    } else {
        let ids = chain(chs, trs[slot as int].chan_list, CHANNEL_COUNT as nat);
        (
            apply_along(finish_channels(chs, ids, q, trs[slot as int], -1i32), ids, |c: Channel| detached(c)),
            trs.update(slot as int, freed_track(trs[slot as int])),
        )
    }
}

/// The channel and track records after the tracks in the first `n` slots
/// of sequence `q` are finished in slot order.
pub open spec fn finish_slots(chs: Seq<Channel>, trs: Seq<Track>, q: Sequence, n: nat) -> (Seq<Channel>, Seq<Track>)
    decreases n,
{
    if n == 0 {
        (chs, trs)
    } else {
        let prev = finish_slots(chs, trs, q, (n - 1) as nat);
        finish_slot(prev.0, prev.1, q, q.tracks@[n - 1])
    }
}

/// Finishing a track depends on its sequence only through the sequence's
/// volume and volume offset.
pub proof fn lemma_finish_channels_seq(chs: Seq<Channel>, ids: Seq<int>, a: Sequence, b: Sequence, t: Track, rate: i32)
    requires
        a.volume == b.volume,
        a.seq_unk06 == b.seq_unk06,
    ensures
        finish_channels(chs, ids, a, t, rate) == finish_channels(chs, ids, b, t, rate),
{
    let fa = |c: Channel| released(c, a, t, false);
    let fb = |c: Channel| released(c, b, t, false);
    assert(fa =~= fb);
}

impl SoundNitro {
    /// Finishes the track in slot `id` of sequence `seq_id`, if it holds
    /// one: the track is finished, its channels taken off it, the track
    /// freed and the slot emptied.
    pub fn finish_sequence_track(&mut self, seq_id: usize, id: usize)
        requires
            old(self).wf(),
            seq_id < SEQUENCE_COUNT,
        ensures
            final(self).same_scalars(old(self)),
            final(self).wf(),
            final(self).alarms == old(self).alarms,
            final(self).cmd_queue@ == old(self).cmd_queue@,
            id > 15 || old(self).sequences@[seq_id as int].tracks@[id as int] == NO_TRACK ==> {
                &&& final(self).channels == old(self).channels
                &&& final(self).tracks == old(self).tracks
                &&& final(self).sequences == old(self).sequences
            },
            !(id > 15 || old(self).sequences@[seq_id as int].tracks@[id as int] == NO_TRACK) ==> {
                let t = old(self).sequences@[seq_id as int].tracks@[id as int] as int;
                let ids = old(self).track_chain(t);
                &&& final(self).channels@ == apply_along(
                    finish_channels(old(self).channels@, ids, old(self).sequences@[seq_id as int], old(self).tracks@[t], -1i32),
                    ids,
                    |c: Channel| detached(c),
                )
                &&& final(self).tracks@ == old(self).tracks@.update(t, freed_track(old(self).tracks@[t]))
                &&& final(self).sequences@[seq_id as int].tracks@ == old(self).sequences@[seq_id as int].tracks@.update(id as int, NO_TRACK)
                &&& same_but_slots(final(self).sequences@[seq_id as int], old(self).sequences@[seq_id as int])
                &&& forall|q: int| 0 <= q < SEQUENCE_COUNT && q != seq_id ==> #[trigger] final(self).sequences@[q] == old(self).sequences@[q]
            },
    {
        if let Some(track_id) = self.get_sequence_track_id(seq_id, id) {
            let ghost ids = old(self).track_chain(track_id as int);
            let ghost g = |c: Channel| released(c, old(self).sequences@[seq_id as int], old(self).tracks@[track_id as int], false);
            let ghost f = |c: Channel| finished(c, -1i32);
            self.finish_track(track_id, seq_id, -1);
            proof {
                let chs0 = old(self).channels@;
                lemma_chain_in_range(chs0, old(self).tracks@[track_id as int].chan_list, CHANNEL_COUNT as nat);
                lemma_apply_along_links(chs0, ids, g);
                lemma_apply_along_len(chs0, ids, g);
                let chs1 = apply_along(chs0, ids, g);
                lemma_apply_along_links(chs1, ids, f);
                lemma_chain_same_links(chs0, chs1, old(self).tracks@[track_id as int].chan_list, CHANNEL_COUNT as nat);
                lemma_ends_same_links(chs0, chs1, old(self).tracks@[track_id as int].chan_list, CHANNEL_COUNT as nat);
                lemma_chain_same_links(chs1, self.channels@, old(self).tracks@[track_id as int].chan_list, CHANNEL_COUNT as nat);
                assert(self.track_chain(track_id as int) == ids);
            }
            self.unlink_track_channels(track_id);
            let mut t = self.tracks[track_id];
            t.status_flags = t.status_flags & !1u8;
            let ghost mid = *self;
            self.tracks[track_id] = t;
            let mut q = self.sequences[seq_id];
            q.tracks[id] = NO_TRACK;
            self.sequences[seq_id] = q;
            proof {
                assert(same_links(mid.channels@, self.channels@));
                assert forall|qq: int, i: int| 0 <= qq < SEQUENCE_COUNT && 0 <= i < 16 implies (#[trigger] self.sequences@[qq].tracks@[i] == NO_TRACK
                    || self.sequences@[qq].tracks@[i] < TRACK_COUNT) by {
                    assert(mid.sequences@[qq].tracks@[i] == NO_TRACK || mid.sequences@[qq].tracks@[i] < TRACK_COUNT);
                }
                assert forall|u: int| 0 <= u < TRACK_COUNT implies #[trigger] ends_within(self.channels@, self.tracks@[u].chan_list, CHANNEL_COUNT as nat) by {
                    assert(ends_within(mid.channels@, mid.tracks@[u].chan_list, CHANNEL_COUNT as nat));
                }
                assert(self.tracks@ == old(self).tracks@.update(track_id as int, freed_track(old(self).tracks@[track_id as int])));
            }
        }
    }

    /// Finishes sequence `seq_id`: each of its 16 track slots is finished
    /// and emptied, then the sequence is marked stopped (flag 0 clear).
    pub fn finish_sequence(&mut self, seq_id: usize)
        requires
            old(self).wf(),
            seq_id < SEQUENCE_COUNT,
        ensures
            final(self).same_scalars(old(self)),
            final(self).wf(),
            final(self).alarms == old(self).alarms,
            final(self).cmd_queue@ == old(self).cmd_queue@,
            forall|i: int| 0 <= i < 16 ==> #[trigger] final(self).sequences@[seq_id as int].tracks@[i] == NO_TRACK,
            final(self).sequences@[seq_id as int].status_flags == old(self).sequences@[seq_id as int].status_flags & !1u8,
            final(self).sequences@[seq_id as int].id == old(self).sequences@[seq_id as int].id,
            forall|q: int| 0 <= q < SEQUENCE_COUNT && q != seq_id ==> #[trigger] final(self).sequences@[q] == old(self).sequences@[q],
            forall|t: int|
                0 <= t < TRACK_COUNT ==> #[trigger] final(self).tracks@[t] == if old(self).sequences@[seq_id as int].tracks@.contains(t as usize) {
                    freed_track(old(self).tracks@[t])
                } else {
                    old(self).tracks@[t]
                },
            (final(self).channels@, final(self).tracks@) == finish_slots(
                old(self).channels@,
                old(self).tracks@,
                old(self).sequences@[seq_id as int],
                16,
            ),
    {
        let ghost slots = old(self).sequences@[seq_id as int].tracks@;
        let ghost q0 = old(self).sequences@[seq_id as int];
        let mut i: usize = 0;
        while i < 16
            invariant
                i <= 16,
                seq_id < SEQUENCE_COUNT,
                self.wf(),
                slots == old(self).sequences@[seq_id as int].tracks@,
                self.alarms == old(self).alarms,
                self.cmd_queue@ == old(self).cmd_queue@,
                self.same_scalars(old(self)),
                forall|j: int| 0 <= j < 16 ==> #[trigger] self.sequences@[seq_id as int].tracks@[j] == if j < i {
                    NO_TRACK
                } else {
                    slots[j]
                },
                self.sequences@[seq_id as int].status_flags == old(self).sequences@[seq_id as int].status_flags,
                forall|q: int| 0 <= q < SEQUENCE_COUNT && q != seq_id ==> #[trigger] self.sequences@[q] == old(self).sequences@[q],
                q0 == old(self).sequences@[seq_id as int],
                same_but_slots(self.sequences@[seq_id as int], q0),
                (self.channels@, self.tracks@) == finish_slots(old(self).channels@, old(self).tracks@, q0, i as nat),
                forall|t: int|
                    0 <= t < TRACK_COUNT ==> #[trigger] self.tracks@[t] == if slots.take(i as int).contains(t as usize) {
                        freed_track(old(self).tracks@[t])
                    } else {
                        old(self).tracks@[t]
                    },
            decreases 16 - i,
        {
            let ghost before = *self;
            let ghost slot = slots[i as int];
            self.finish_sequence_track(seq_id, i);
            proof {
                assert(before.sequences@[seq_id as int].tracks@[i as int] == slot);
                if slot != NO_TRACK {
                    assert(slot < TRACK_COUNT);
                    lemma_finish_channels_seq(
                        before.channels@,
                        before.track_chain(slot as int),
                        before.sequences@[seq_id as int],
                        q0,
                        before.tracks@[slot as int],
                        -1i32,
                    );
                }
                assert((self.channels@, self.tracks@) == finish_slots(old(self).channels@, old(self).tracks@, q0, (i + 1) as nat));
                assert forall|t: int| 0 <= t < TRACK_COUNT implies #[trigger] self.tracks@[t] == if slots.take(i + 1).contains(t as usize) {
                    freed_track(old(self).tracks@[t])
                } else {
                    old(self).tracks@[t]
                } by {
                    let prev_in = slots.take(i as int).contains(t as usize);
                    assert(slots.take(i + 1) =~= slots.take(i as int).push(slot));
                    let tu = t as usize;
                    let a = slots.take(i as int);
                    let b = slots.take(i + 1);
                    assert(b.contains(tu) == (prev_in || slot == tu)) by {
                        if b.contains(tu) {
                            let j = choose|j: int| 0 <= j < b.len() && b[j] == tu;
                            if j < i {
                                assert(a[j] == tu);
                            }
                        }
                        if prev_in {
                            let j = choose|j: int| 0 <= j < a.len() && a[j] == tu;
                            assert(b[j] == tu);
                        }
                        if slot == tu {
                            assert(b[i as int] == tu);
                        }
                    }
                    if slot != NO_TRACK && slot == t as usize {
                        assert(self.tracks@[t] == freed_track(before.tracks@[t]));
                        lemma_free_flag(old(self).tracks@[t].status_flags);
                        assert(freed_track(before.tracks@[t]) == freed_track(old(self).tracks@[t]));
                    } else if slot == t as usize {
                        assert(t < TRACK_COUNT);
                    }
                }
                assert forall|j: int| 0 <= j < 16 implies #[trigger] self.sequences@[seq_id as int].tracks@[j] == if j < i + 1 {
                    NO_TRACK
                } else {
                    slots[j]
                } by {
                    assert(before.sequences@[seq_id as int].tracks@[j] == if j < i {
                        NO_TRACK
                    } else {
                        slots[j]
                    });
                }
            }
            i = i + 1;
        }
        let mut q = self.sequences[seq_id];
        q.status_flags = q.status_flags & !1u8;
        let ghost mid = *self;
        self.sequences[seq_id] = q;
        proof {
            assert(slots.take(16) =~= slots);
            assert forall|qq: int, j: int| 0 <= qq < SEQUENCE_COUNT && 0 <= j < 16 implies (#[trigger] self.sequences@[qq].tracks@[j] == NO_TRACK
                || self.sequences@[qq].tracks@[j] < TRACK_COUNT) by {
                assert(mid.sequences@[qq].tracks@[j] == NO_TRACK || mid.sequences@[qq].tracks@[j] < TRACK_COUNT);
            }
        }
    }
}

/// A channel's volume envelope after one step: the attack phase (0) moves
/// the level toward full by the attack rate and ends at full, the decay
/// phase (1) falls by the decay rate down to the sustain level, the
/// release phase (3) falls by the release rate; the sustain phase (2)
/// holds.
pub open spec fn ramped(c: Channel) -> Channel {
    if c.vol_ramp_phase == 0 {
        let b = -((((-c.base_volume) * c.attack_rate as int) as i32) >> 8i32);
        Channel {
            base_volume: b as i32,
            vol_ramp_phase: if b == 0 {
                1
            } else {
                0
            },
            ..c
        }
    } else if c.vol_ramp_phase == 1 {
        let b = c.base_volume - c.decay_rate;
        let target = base_volume_table()[(c.sustain_rate % 128) as int] * 128;
        if b <= target {
            Channel { base_volume: target as i32, vol_ramp_phase: 2, ..c }
        } else {
            Channel { base_volume: b as i32, ..c }
        }
    } else if c.vol_ramp_phase == 3 {
        Channel { base_volume: (c.base_volume - c.release_rate) as i32, ..c }
    } else {
        c
    }
}

/// `a` over `b` rounded toward zero, for positive `b`.
pub open spec fn trunc_div(a: int, b: int) -> int {
    if a >= 0 {
        a / b
    } else {
        -((-a) / b)
    }
}

/// The pitch offset of a channel's pitch sweep: the sweep target scaled by
/// the part of the sweep still to go, none when there is no sweep or it
/// is over.
pub open spec fn freq_ramp_value(c: Channel) -> int {
    if c.freq_ramp_target == 0 || c.freq_ramp_pos >= c.freq_ramp_len {
        0
    } else {
        trunc_div(c.freq_ramp_target * (c.freq_ramp_len - c.freq_ramp_pos), c.freq_ramp_len as int)
    }
}

/// The modulation wave: a quarter sine, 0 to 127, at 33 points.
pub const MODULATION_TABLE: [i8; 33] = [
    0x00, 0x06, 0x0C, 0x13, 0x19, 0x1F, 0x25, 0x2B, 0x31, 0x36, 0x3C, 0x41, 0x47, 0x4C, 0x51, 0x55, 0x5A, 0x5E, 0x62, 0x66, 0x6A, 0x6D, 0x70, 0x73, 0x75, 0x78, 0x7A, 0x7B, 0x7D, 0x7E,
    0x7E, 0x7F, 0x00,
];

pub open spec fn modulation_table() -> Seq<i8> {
    seq![
        0x00i8, 0x06, 0x0C, 0x13, 0x19, 0x1F, 0x25, 0x2B, 0x31, 0x36, 0x3C, 0x41, 0x47, 0x4C, 0x51, 0x55, 0x5A, 0x5E, 0x62, 0x66, 0x6A, 0x6D, 0x70, 0x73, 0x75, 0x78, 0x7A, 0x7B, 0x7D,
        0x7E, 0x7E, 0x7F, 0x00
    ]
}

/// The modulation wave at phase `index` (0 to 127): the quarter sine
/// mirrored and negated over the four quarters.
pub open spec fn modulation_wave(index: int) -> int {
    if index < 32 {
        modulation_table()[index] as int
    } else if index < 64 {
        modulation_table()[64 - index] as int
    } else if index < 96 {
        -(modulation_table()[index - 64] as int)
    } else {
        -(modulation_table()[32 - (index - 96)] as int)
    }
}

/// The modulation a channel applies now: the wave at its phase (the high
/// byte of its second counter) times depth and range, scaled by its type,
/// once its delay has passed.
pub open spec fn modulation_value(c: Channel) -> int {
    let base = if c.modulation_depth != 0 && c.modulation_count1 >= c.modulation_delay {
        modulation_wave((c.modulation_count2 / 256) as int) * c.modulation_depth * c.modulation_range
    } else {
        0
    };
    if base != 0 {
        let scaled = if c.modulation_type == 0 || c.modulation_type == 2 {
            base * 64
        } else if c.modulation_type == 1 {
            base * 60
        } else {
            base
        };
        ((scaled as i64) >> 14i64) as int
    } else {
        0
    }
}

/// A channel's modulation counters after one step: the delay counts up,
/// then the phase advances by the speed, wrapping at 0x8000.
pub open spec fn modulation_stepped(c: Channel) -> Channel {
    if c.modulation_count1 < c.modulation_delay {
        Channel { modulation_count1: (c.modulation_count1 + 1) as u16, ..c }
    } else {
        Channel { modulation_count2: ((c.modulation_count2 + c.modulation_speed * 64) % 0x8000) as u16, ..c }
    }
}

/// The phase step keeps its low byte and wraps its high byte at 128.
proof fn lemma_phase_step(s: u32)
    by (bit_vector)
    requires
        s < 0x10000,
    ensures
        ((s & 0xFF) | (((s >> 8u32) % 128) << 8u32)) == s % 0x8000,
{
}

impl SoundNitro {
    /// The volume envelope level of channel `chan_id` in attenuation
    /// units, after stepping its envelope when `update` holds.
    pub fn channel_volume_ramp(&mut self, chan_id: usize, update: bool) -> (r: i32)
        requires
            old(self).wf(),
            chan_id < CHANNEL_COUNT,
            update ==> -0x7A_0000 <= old(self).channels@[chan_id as int].base_volume <= 0x7A_0000,
        ensures
            final(self).wf(),
            final(self).same_but_channels(old(self)),
            final(self).channels@ == old(self).channels@.update(
                chan_id as int,
                if update {
                    ramped(old(self).channels@[chan_id as int])
                } else {
                    old(self).channels@[chan_id as int]
                },
            ),
            r == final(self).channels@[chan_id as int].base_volume >> 7i32,
    {
        let ghost before = *self;
        let mut chan = self.channels[chan_id];
        if update {
            if chan.vol_ramp_phase == 0 {
                assert(-0x7FFF_FFFF <= (-chan.base_volume) * (chan.attack_rate as i32) <= 0x7FFF_FFFF) by (nonlinear_arith)
                    requires
                        -0x7A_0000 <= chan.base_volume <= 0x7A_0000,
                        0 <= chan.attack_rate <= 255,
                ;
                let m = (-chan.base_volume) * (chan.attack_rate as i32);
                proof {
                    lemma_shr8_bounds(m);
                }
                chan.base_volume = -(m >> 8i32);
                if chan.base_volume == 0 {
                    chan.vol_ramp_phase = 1;
                }
            } else if chan.vol_ramp_phase == 1 {
                chan.base_volume = chan.base_volume - chan.decay_rate as i32;
                let table = BASE_VOLUME_TABLE;
                assert(table@ == base_volume_table());
                let target = (table[(chan.sustain_rate % 128) as usize] as i32) * 128;
                if chan.base_volume <= target {
                    chan.base_volume = target;
                    chan.vol_ramp_phase = 2;
                }
            } else if chan.vol_ramp_phase == 3 {
                chan.base_volume = chan.base_volume - chan.release_rate as i32;
            }
        }
        self.channels[chan_id] = chan;
        proof {
            before.lemma_wf_same_links(self);
        }
        chan.base_volume >> 7i32
    }

    /// The pitch offset of the sweep of channel `chan_id`; with `update`,
    /// a started channel (flag 2) moves one step along its sweep.
    pub fn channel_freq_ramp(&mut self, chan_id: usize, update: bool) -> (r: i32)
        requires
            old(self).wf(),
            chan_id < CHANNEL_COUNT,
            old(self).channels@[chan_id as int].freq_ramp_pos >= 0,
        ensures
            final(self).wf(),
            final(self).same_but_channels(old(self)),
            r == freq_ramp_value(old(self).channels@[chan_id as int]),
            final(self).channels@ == old(self).channels@.update(
                chan_id as int,
                if r != 0 || (old(self).channels@[chan_id as int].freq_ramp_target != 0 && old(self).channels@[chan_id as int].freq_ramp_pos
                    < old(self).channels@[chan_id as int].freq_ramp_len) {
                    if update && old(self).channels@[chan_id as int].status_flags & 4 != 0 {
                        (Channel {
                            freq_ramp_pos: (old(self).channels@[chan_id as int].freq_ramp_pos + 1) as i32,
                            ..old(self).channels@[chan_id as int]
                        })
                    } else {
                        old(self).channels@[chan_id as int]
                    }
                } else {
                    old(self).channels@[chan_id as int]
                },
            ),
    {
        let mut chan = self.channels[chan_id];
        if chan.freq_ramp_target == 0 {
            return 0;
        }
        if chan.freq_ramp_pos >= chan.freq_ramp_len {
            return 0;
        }
        let left = (chan.freq_ramp_len - chan.freq_ramp_pos) as i64;
        let len = chan.freq_ramp_len as i64;
        let target = chan.freq_ramp_target as i64;
        assert(0 < left <= len);
        let ret: i64 = if target >= 0 {
            assert(0 <= target * left <= target * len <= 0x8000 * 0x8000_0000) by (nonlinear_arith)
                requires
                    0 <= target <= 0x7FFF,
                    0 < left <= len <= 0x7FFF_FFFF,
            ;
            assert(0 <= (target * left) / (len as int) <= target) by (nonlinear_arith)
                requires
                    0 <= target * left <= target * len,
                    0 < len,
                    0 <= target,
            ;
            (target * left) / len
        } else {
            assert(0 < (-target) * left <= (-target) * len <= 0x8000 * 0x8000_0000) by (nonlinear_arith)
                requires
                    0 < -target <= 0x8000,
                    0 < left <= len <= 0x7FFF_FFFF,
            ;
            assert(0 <= ((-target) * left) / (len as int) <= -target) by (nonlinear_arith)
                requires
                    0 < (-target) * left <= (-target) * len,
                    0 < len,
            ;
            assert((-target) * left == -(target * left)) by (nonlinear_arith);
            -(((-target) * left) / len)
        };
        assert(ret == trunc_div(chan.freq_ramp_target * (chan.freq_ramp_len - chan.freq_ramp_pos), chan.freq_ramp_len as int));
        if update && chan.status_flags & 4 != 0 {
            let ghost before = *self;
            chan.freq_ramp_pos = chan.freq_ramp_pos + 1;
            self.channels[chan_id] = chan;
            proof {
                before.lemma_wf_same_links(self);
            }
        }
        ret as i32
    }

    /// The modulation of channel `chan_id`; with `update`, its modulation
    /// counters step.
    #[verifier::spinoff_prover]
    #[verifier::rlimit(40)]
    pub fn channel_modulation(&mut self, chan_id: usize, update: bool) -> (r: i32)
        requires
            old(self).wf(),
            chan_id < CHANNEL_COUNT,
            old(self).channels@[chan_id as int].modulation_count2 < 0x8000,
        ensures
            final(self).wf(),
            final(self).same_but_channels(old(self)),
            r == modulation_value(old(self).channels@[chan_id as int]),
            final(self).channels@ == old(self).channels@.update(
                chan_id as int,
                if update {
                    modulation_stepped(old(self).channels@[chan_id as int])
                } else {
                    old(self).channels@[chan_id as int]
                },
            ),
            final(self).channels@[chan_id as int].modulation_count2 < 0x8000,
    {
        let mut chan = self.channels[chan_id];
        let mut modfactor: i64 = 0;
        if chan.modulation_depth != 0 && chan.modulation_count1 >= chan.modulation_delay {
            let table = MODULATION_TABLE;
            assert(table@ == modulation_table());
            let index = (chan.modulation_count2 / 256) as usize;
            let w: i64 = if index < 32 {
                table[index] as i64
            } else if index < 64 {
                table[64 - index] as i64
            } else if index < 96 {
                -(table[index - 64] as i64)
            } else {
                -(table[32 - (index - 96)] as i64)
            };
            assert(-128 <= w <= 127);
            assert(-128 * 255 <= w * (chan.modulation_depth as i64) <= 127 * 255 && -128 * 255 * 255 <= w * (chan.modulation_depth as i64) * (chan.modulation_range as i64) <= 127 * 255 * 255) by (nonlinear_arith)
                requires
                    -128 <= w <= 127,
                    0 <= chan.modulation_depth <= 255,
                    0 <= chan.modulation_range <= 255,
            ;
            modfactor = w * (chan.modulation_depth as i64) * (chan.modulation_range as i64);
        }
        if modfactor != 0 {
            if chan.modulation_type == 0 || chan.modulation_type == 2 {
                modfactor = modfactor * 64;
            } else if chan.modulation_type == 1 {
                modfactor = modfactor * 60;
            }
            modfactor = modfactor >> 14i64;
        }
        if update {
            let ghost before = *self;
            if chan.modulation_count1 < chan.modulation_delay {
                chan.modulation_count1 = chan.modulation_count1 + 1;
            } else {
                let sum = chan.modulation_count2 as u32 + ((chan.modulation_speed as u32) * 64);
                let mut cnt = sum / 256;
                while cnt >= 128
                    invariant
                        cnt % 128 == (sum / 256) % 128,
                    decreases cnt,
                {
                    cnt = cnt - 128;
                }
                proof {
                    vstd::bits::lemma_u32_shr_is_div(sum, 8);
                    vstd::arithmetic::power2::lemma2_to64();
                    lemma_phase_step(sum);
                }
                chan.modulation_count2 = ((sum & 0xFF) | (cnt << 8u32)) as u16;
            }
            self.channels[chan_id] = chan;
            proof {
                before.lemma_wf_same_links(self);
            }
        }
        proof {
            vstd::arithmetic::power2::lemma2_to64();
        }
        modfactor as i32
    }
}

/// A sequence with the parameter numbered `key` set from `val`: pan,
/// volume, volume offset, tempo, tempo scale or tick counter; other keys
/// change nothing.
pub open spec fn seq_param(q: Sequence, key: u32, val: u32) -> Sequence {
    if key == 0x104 {
        Sequence { pan: val as u8, ..q }
    } else if key == 0x105 {
        Sequence { volume: (val & 0xFF) as usize, ..q }
    } else if key == 0x206 {
        Sequence { seq_unk06: (val & 0xFFFF) as i16, ..q }
    } else if key == 0x218 {
        Sequence { tempo: val as u16, ..q }
    } else if key == 0x21A {
        Sequence { seq_unk1a: val as u16, ..q }
    } else if key == 0x21C {
        Sequence { tick_counter: val as u16, ..q }
    } else {
        q
    }
}

/// A track with the parameter numbered `key` set from `val`: volume,
/// expression, pitch bend, bend range, pan, pan offset, volume offset or
/// frequency; other keys change nothing.
pub open spec fn track_param(t: Track, key: u32, val: u32) -> Track {
    if key == 0x104 {
        Track { volume: (val & 0xFF) as usize, ..t }
    } else if key == 0x105 {
        Track { expression: (val & 0xFF) as usize, ..t }
    } else if key == 0x106 {
        Track { pitch_bend: (val & 0xFF) as i8, ..t }
    } else if key == 0x107 {
        Track { pitch_bend_range: val as u8, ..t }
    } else if key == 0x108 {
        Track { pan: (val & 0xFF) as i8, ..t }
    } else if key == 0x109 {
        Track { track_unk09: (val & 0xFF) as i8, ..t }
    } else if key == 0x20A {
        Track { track_unk0a: (val & 0xFFFF) as i16, ..t }
    } else if key == 0x20C {
        Track { frequency: (val & 0xFFFF) as i16, ..t }
    } else {
        t
    }
}

/// Whether bit `i` of `mask` is set.
pub open spec fn bit_set(mask: u32, i: int) -> bool {
    mask & (1u32 << (i as u32)) != 0
}

/// Whether track `t` is in one of the slots of sequence record `q` that
/// `mask` selects (bits 0 to 15).
pub open spec fn in_masked_slots(q: Sequence, mask: u32, t: int) -> bool {
    exists|i: int| 0 <= i < 16 && mask & (1u32 << (i as u32)) != 0 && #[trigger] q.tracks@[i] == t && t != NO_TRACK
}

/// A track given channel mask `chanmask`, with flag 7 set.
pub open spec fn masked_track(t: Track, chanmask: u16) -> Track {
    Track { channel_mask: chanmask, status_flags: t.status_flags | 0x80, ..t }
}

impl SoundNitro {
    /// What alarm `alarm_id` does when it rings: nothing when inactive;
    /// else the message to send the game (the alarm number, its parameter
    /// above it) and, for a repeating alarm, the cycles until it rings
    /// again, a one-shot alarm turning itself off.
    pub fn on_alarm(&mut self, alarm_id: usize) -> (r: Option<(u32, Option<u32>)>)
        requires
            alarm_id < 8,
            old(self).alarms@[alarm_id as int].active ==> old(self).alarms@[alarm_id as int].repeat * 64 <= u32::MAX,
        ensures
            final(self).same_scalars(old(self)),
            final(self).channels == old(self).channels,
            final(self).tracks == old(self).tracks,
            final(self).sequences == old(self).sequences,
            !old(self).alarms@[alarm_id as int].active ==> r is None && final(self).alarms == old(self).alarms,
            old(self).alarms@[alarm_id as int].active ==> {
                let a = old(self).alarms@[alarm_id as int];
                &&& r == Some(((alarm_id as u32) | (a.param << 8u32), if a.repeat != 0 {
                    Some((a.repeat * 64) as u32)
                } else {
                    None
                }))
                &&& final(self).alarms@ == if a.repeat != 0 {
                    old(self).alarms@
                } else {
                    old(self).alarms@.update(alarm_id as int, (Alarm { active: false, ..a }))
                }
            },
    {
        let mut alarm = self.alarms[alarm_id];
        if !alarm.active {
            return None;
        }
        let msg = (alarm_id as u32) | (alarm.param << 8u32);
        let delay = alarm.repeat;
        if delay != 0 {
            Some((msg, Some(delay * 64)))
        } else {
            alarm.active = false;
            self.alarms[alarm_id] = alarm;
            Some((msg, None))
        }
    }

    /// Sets alarm `num` (modulo 8) up, inactive: its first delay, its
    /// repeat period and its parameter byte.
    pub fn set_alarm(&mut self, num: u32, delay: u32, repeat: u32, param: u32)
        ensures
            final(self).same_scalars(old(self)),
            final(self).alarms@ == old(self).alarms@.update((num % 8) as int, (Alarm { active: false, delay, repeat, param: param % 256 })),
            final(self).channels == old(self).channels,
            final(self).tracks == old(self).tracks,
            final(self).sequences == old(self).sequences,
    {
        let i = (num % 8) as usize;
        self.alarms[i] = Alarm { active: false, delay, repeat, param: param % 256 };
    }

    /// Starts the alarms that `mask` selects (bits 0 to 7) and returns,
    /// for each in order, its number and the cycles until it rings: its
    /// delay for a repeating alarm, at once for a one-shot one.
    pub fn start_alarms(&mut self, mask: u32) -> (r: Vec<(u16, u32)>)
        requires
            forall|i: int| 0 <= i < 8 ==> #[trigger] old(self).alarms@[i].delay * 64 <= u32::MAX,
        ensures
            final(self).same_scalars(old(self)),
            forall|i: int|
                0 <= i < 8 ==> #[trigger] final(self).alarms@[i] == if mask & (1u32 << (i as u32)) != 0 {
                    Alarm { active: true, ..old(self).alarms@[i] }
                } else {
                    old(self).alarms@[i]
                },
            forall|k: int| 0 <= k < r@.len() ==> mask & (1u32 << (#[trigger] r@[k].0 as u32)) != 0 && r@[k].0 < 8,
            forall|k: int, l: int| 0 <= k < l < r@.len() ==> r@[k].0 < r@[l].0,
            forall|i: int| 0 <= i < 8 && #[trigger] bit_set(mask, i) ==> exists|k: int| 0 <= k < r@.len() && #[trigger] r@[k].0 == i,
            forall|k: int|
                0 <= k < r@.len() ==> #[trigger] r@[k].1 == if old(self).alarms@[r@[k].0 as int].repeat != 0 {
                    old(self).alarms@[r@[k].0 as int].delay * 64
                } else {
                    0
                },
            final(self).channels == old(self).channels,
            final(self).tracks == old(self).tracks,
            final(self).sequences == old(self).sequences,
    {
        let mut out: Vec<(u16, u32)> = Vec::new();
        let mut i: usize = 0;
        while i < 8
            invariant
                i <= 8,
                self.same_scalars(old(self)),
                self.channels == old(self).channels,
                self.tracks == old(self).tracks,
                self.sequences == old(self).sequences,
                forall|j: int| 0 <= j < 8 ==> #[trigger] old(self).alarms@[j].delay * 64 <= u32::MAX,
                forall|j: int|
                    0 <= j < 8 ==> #[trigger] self.alarms@[j] == if j < i && mask & (1u32 << (j as u32)) != 0 {
                        Alarm { active: true, ..old(self).alarms@[j] }
                    } else {
                        old(self).alarms@[j]
                    },
                forall|k: int| 0 <= k < out@.len() ==> mask & (1u32 << (#[trigger] out@[k].0 as u32)) != 0 && out@[k].0 < i,
                forall|k: int, l: int| 0 <= k < l < out@.len() ==> out@[k].0 < out@[l].0,
                forall|j: int| 0 <= j < i && #[trigger] bit_set(mask, j) ==> exists|k: int| 0 <= k < out@.len() && #[trigger] out@[k].0 == j,
                forall|k: int|
                    0 <= k < out@.len() ==> #[trigger] out@[k].1 == if old(self).alarms@[out@[k].0 as int].repeat != 0 {
                        old(self).alarms@[out@[k].0 as int].delay * 64
                    } else {
                        0
                    },
            decreases 8 - i,
        {
            if mask & (1u32 << (i as u32)) != 0 {
                let mut alarm = self.alarms[i];
                alarm.active = true;
                let mut delay = alarm.repeat;
                if delay != 0 {
                    delay = alarm.delay;
                }
                self.alarms[i] = alarm;
                let ghost before = out@;
                out.push((i as u16, delay * 64));
                proof {
                    assert(out@[before.len() as int].0 == i);
                    assert forall|j: int| 0 <= j < i + 1 && #[trigger] bit_set(mask, j) implies exists|k: int| 0 <= k < out@.len() && #[trigger] out@[k].0 == j by {
                        if j < i {
                            let k = choose|k: int| 0 <= k < before.len() && #[trigger] before[k].0 == j;
                            assert(out@[k].0 == j);
                        } else {
                            assert(out@[before.len() as int].0 == j);
                        }
                    }
                }
            }
            i = i + 1;
        }
        out
    }

    /// Stops the alarms that `mask` selects (bits 0 to 7).
    pub fn stop_alarms(&mut self, mask: u32)
        ensures
            final(self).same_scalars(old(self)),
            forall|i: int|
                0 <= i < 8 ==> #[trigger] final(self).alarms@[i] == if mask & (1u32 << (i as u32)) != 0 {
                    Alarm { active: false, ..old(self).alarms@[i] }
                } else {
                    old(self).alarms@[i]
                },
            final(self).channels == old(self).channels,
            final(self).tracks == old(self).tracks,
            final(self).sequences == old(self).sequences,
    {
        let mut i: usize = 0;
        while i < 8
            invariant
                i <= 8,
                self.same_scalars(old(self)),
                self.channels == old(self).channels,
                self.tracks == old(self).tracks,
                self.sequences == old(self).sequences,
                forall|j: int|
                    0 <= j < 8 ==> #[trigger] self.alarms@[j] == if j < i && mask & (1u32 << (j as u32)) != 0 {
                        Alarm { active: false, ..old(self).alarms@[j] }
                    } else {
                        old(self).alarms@[j]
                    },
            decreases 8 - i,
        {
            if mask & (1u32 << (i as u32)) != 0 {
                let mut alarm = self.alarms[i];
                alarm.active = false;
                self.alarms[i] = alarm;
            }
            i = i + 1;
        }
    }

    /// Sets parameter `key` of sequence `seq_id` from `val`.
    pub fn set_sequence_param(&mut self, seq_id: usize, key: u32, val: u32)
        requires
            old(self).wf(),
            seq_id < SEQUENCE_COUNT,
        ensures
            final(self).same_scalars(old(self)),
            final(self).alarms == old(self).alarms,
            final(self).wf(),
            final(self).channels == old(self).channels,
            final(self).tracks == old(self).tracks,
            final(self).sequences@ == old(self).sequences@.update(seq_id as int, seq_param(old(self).sequences@[seq_id as int], key, val)),
    {
        let mut q = self.sequences[seq_id];
        if key == 0x104 {
            q.pan = val as u8;
        } else if key == 0x105 {
            q.volume = (val & 0xFF) as usize;
        } else if key == 0x206 {
            q.seq_unk06 = (val & 0xFFFF) as i16;
        } else if key == 0x218 {
            q.tempo = val as u16;
        } else if key == 0x21A {
            q.seq_unk1a = val as u16;
        } else if key == 0x21C {
            q.tick_counter = val as u16;
        }
        let ghost before = *self;
        self.sequences[seq_id] = q;
        proof {
            assert forall|qq: int, i: int| 0 <= qq < SEQUENCE_COUNT && 0 <= i < 16 implies (#[trigger] self.sequences@[qq].tracks@[i] == NO_TRACK
                || self.sequences@[qq].tracks@[i] < TRACK_COUNT) by {
                assert(before.sequences@[qq].tracks@[i] == NO_TRACK || before.sequences@[qq].tracks@[i] < TRACK_COUNT);
            }
        }
    }

    /// Sets parameter `key` from `val` on each track of sequence `seq_id`
    /// in a slot that `trackmask` selects.
    pub fn set_track_param(&mut self, seq_id: usize, trackmask: u32, key: u32, val: u32)
        requires
            old(self).wf(),
            seq_id < SEQUENCE_COUNT,
        ensures
            final(self).same_scalars(old(self)),
            final(self).alarms == old(self).alarms,
            final(self).wf(),
            final(self).channels == old(self).channels,
            final(self).sequences == old(self).sequences,
            forall|t: int|
                0 <= t < TRACK_COUNT ==> #[trigger] final(self).tracks@[t] == if in_masked_slots(old(self).sequences@[seq_id as int], trackmask, t) {
                    track_param(old(self).tracks@[t], key, val)
                } else {
                    old(self).tracks@[t]
                },
    {
        let ghost q = old(self).sequences@[seq_id as int];
        let mut i: usize = 0;
        while i < 16
            invariant
                i <= 16,
                self.same_scalars(old(self)),
                self.alarms == old(self).alarms,
                seq_id < SEQUENCE_COUNT,
                self.wf(),
                q == old(self).sequences@[seq_id as int],
                self.channels == old(self).channels,
                self.sequences == old(self).sequences,
                forall|t: int|
                    0 <= t < TRACK_COUNT ==> #[trigger] self.tracks@[t] == if exists|j: int|
                        0 <= j < i && trackmask & (1u32 << (j as u32)) != 0 && #[trigger] q.tracks@[j] == t && t != NO_TRACK {
                        track_param(old(self).tracks@[t], key, val)
                    } else {
                        old(self).tracks@[t]
                    },
            decreases 16 - i,
        {
            if trackmask & (1u32 << (i as u32)) != 0 {
                if let Some(track_id) = self.get_sequence_track_id(seq_id, i) {
                    let mut t = self.tracks[track_id];
                    if key == 0x104 {
                        t.volume = (val & 0xFF) as usize;
                    } else if key == 0x105 {
                        t.expression = (val & 0xFF) as usize;
                    } else if key == 0x106 {
                        t.pitch_bend = (val & 0xFF) as i8;
                    } else if key == 0x107 {
                        t.pitch_bend_range = val as u8;
                    } else if key == 0x108 {
                        t.pan = (val & 0xFF) as i8;
                    } else if key == 0x109 {
                        t.track_unk09 = (val & 0xFF) as i8;
                    } else if key == 0x20A {
                        t.track_unk0a = (val & 0xFFFF) as i16;
                    } else if key == 0x20C {
                        t.frequency = (val & 0xFFFF) as i16;
                    }
                    let ghost before = *self;
                    self.tracks[track_id] = t;
                    proof {
                        assert(t == track_param(before.tracks@[track_id as int], key, val));
                        assert(same_links(before.channels@, self.channels@));
                        before.lemma_wf_same_links(self);
                        assert forall|u: int| 0 <= u < TRACK_COUNT implies #[trigger] self.tracks@[u] == if exists|j: int|
                            0 <= j < i + 1 && trackmask & (1u32 << (j as u32)) != 0 && #[trigger] q.tracks@[j] == u && u != NO_TRACK {
                            track_param(old(self).tracks@[u], key, val)
                        } else {
                            old(self).tracks@[u]
                        } by {
                            if u == track_id {
                                assert(q.tracks@[i as int] == u);
                                if exists|j: int| 0 <= j < i && trackmask & (1u32 << (j as u32)) != 0 && #[trigger] q.tracks@[j] == u && u != NO_TRACK {
                                    assert(before.tracks@[u] == track_param(old(self).tracks@[u], key, val));
                                }
                            } else {
                                if exists|j: int| 0 <= j < i + 1 && trackmask & (1u32 << (j as u32)) != 0 && #[trigger] q.tracks@[j] == u && u != NO_TRACK {
                                    let j = choose|j: int| 0 <= j < i + 1 && trackmask & (1u32 << (j as u32)) != 0 && #[trigger] q.tracks@[j] == u && u != NO_TRACK;
                                    assert(j != i);
                                }
                            }
                        }
                    }
                }
            }
            i = i + 1;
        }
    }

    /// Gives each track of sequence `seq_id` in a slot that `trackmask`
    /// selects the channel mask `chanmask`, marking it (flag 7).
    pub fn set_track_channel_mask(&mut self, seq_id: usize, trackmask: u32, chanmask: u16)
        requires
            old(self).wf(),
            seq_id < SEQUENCE_COUNT,
        ensures
            final(self).same_scalars(old(self)),
            final(self).alarms == old(self).alarms,
            final(self).wf(),
            final(self).channels == old(self).channels,
            final(self).sequences == old(self).sequences,
            forall|t: int|
                0 <= t < TRACK_COUNT ==> #[trigger] final(self).tracks@[t] == if in_masked_slots(old(self).sequences@[seq_id as int], trackmask, t) {
                    masked_track(old(self).tracks@[t], chanmask)
                } else {
                    old(self).tracks@[t]
                },
    {
        let ghost q = old(self).sequences@[seq_id as int];
        let mut i: usize = 0;
        while i < 16
            invariant
                i <= 16,
                self.same_scalars(old(self)),
                self.alarms == old(self).alarms,
                seq_id < SEQUENCE_COUNT,
                self.wf(),
                q == old(self).sequences@[seq_id as int],
                self.channels == old(self).channels,
                self.sequences == old(self).sequences,
                forall|t: int|
                    0 <= t < TRACK_COUNT ==> #[trigger] self.tracks@[t] == if exists|j: int|
                        0 <= j < i && trackmask & (1u32 << (j as u32)) != 0 && #[trigger] q.tracks@[j] == t && t != NO_TRACK {
                        masked_track(old(self).tracks@[t], chanmask)
                    } else {
                        old(self).tracks@[t]
                    },
            decreases 16 - i,
        {
            if trackmask & (1u32 << (i as u32)) != 0 {
                if let Some(track_id) = self.get_sequence_track_id(seq_id, i) {
                    let mut t = self.tracks[track_id];
                    t.channel_mask = chanmask;
                    t.status_flags = t.status_flags | 0x80;
                    let ghost before = *self;
                    self.tracks[track_id] = t;
                    proof {
                        assert(same_links(before.channels@, self.channels@));
                        before.lemma_wf_same_links(self);
                        assert forall|u: int| 0 <= u < TRACK_COUNT implies #[trigger] self.tracks@[u] == if exists|j: int|
                            0 <= j < i + 1 && trackmask & (1u32 << (j as u32)) != 0 && #[trigger] q.tracks@[j] == u && u != NO_TRACK {
                            masked_track(old(self).tracks@[u], chanmask)
                        } else {
                            old(self).tracks@[u]
                        } by {
                            if u == track_id {
                                assert(q.tracks@[i as int] == u);
                                if exists|j: int| 0 <= j < i && trackmask & (1u32 << (j as u32)) != 0 && #[trigger] q.tracks@[j] == u && u != NO_TRACK {
                                    lemma_flag7_twice(old(self).tracks@[u].status_flags);
                                }
                            } else {
                                if exists|j: int| 0 <= j < i + 1 && trackmask & (1u32 << (j as u32)) != 0 && #[trigger] q.tracks@[j] == u && u != NO_TRACK {
                                    let j = choose|j: int| 0 <= j < i + 1 && trackmask & (1u32 << (j as u32)) != 0 && #[trigger] q.tracks@[j] == u && u != NO_TRACK;
                                    assert(j != i);
                                }
                            }
                        }
                    }
                }
            }
            i = i + 1;
        }
    }
}

/// The volume of a channel at pan `pan` under surround decay `decay`:
/// channels panned hard left (below 24) or hard right (104 on) are
/// attenuated by the decay, the rest keep `vol`.
pub open spec fn surround_volume(vol: int, pan: int, decay: int) -> int {
    if pan < 24 {
        (vol * ((pan + 40) * decay + (0x7FFF - decay) * 64)) / 0x20_0000
    } else if pan >= 104 {
        (vol * (-(pan - 40) * decay + (0x7FFF + decay) * 64)) / 0x20_0000
    } else {
        vol
    }
}

impl SoundNitro {
    /// The volume a channel of volume `vol` plays at with pan `pan` under
    /// the driver's surround decay.
    pub fn calc_channel_volume(&self, vol: i32, pan: i32) -> (r: i32)
        requires
            0 <= self.surround_decay <= 0x7FFF,
            0 <= vol <= 255,
            0 <= pan <= 127,
        ensures
            r == surround_volume(vol as int, pan as int, self.surround_decay as int),
    {
        let decay = self.surround_decay;
        if pan < 24 {
            assert(0 <= (pan + 40) * decay <= 64 * 0x7FFF) by (nonlinear_arith)
                requires
                    0 <= pan < 24,
                    0 <= decay <= 0x7FFF,
            ;
            let p = (pan + 40) * decay + (0x7FFF - decay) * 64;
            assert(0 <= vol * p <= 255 * 0x40_0000) by (nonlinear_arith)
                requires
                    0 <= vol <= 255,
                    0 <= p <= 0x40_0000,
            ;
            (vol * p) / 0x20_0000
        } else if pan >= 104 {
            assert(-87 * 0x7FFF <= (-(pan - 40)) * decay <= 0 && (-(pan - 40)) * decay >= -87 * decay) by (nonlinear_arith)
                requires
                    104 <= pan <= 127,
                    0 <= decay <= 0x7FFF,
            ;
            let p = -(pan - 40) * decay + (0x7FFF + decay) * 64;
            assert(0 <= vol * p <= 255 * 0x40_0000) by (nonlinear_arith)
                requires
                    0 <= vol <= 255,
                    0 <= p <= 0x40_0000,
            ;
            (vol * p) / 0x20_0000
        } else {
            vol
        }
    }
}

/// The command numbers of the game that reorders them, by its number.
pub const CMD_TRANSLATION: [u32; 30] = [
    0x0, 0x1, 0x4, 0x6, 0x7, 0x8, 0x9, 0xA, 0xB, 0xC, 0xD, 0xE, 0xF, 0x10, 0x11, 0x12, 0x13, 0x14, 0x15, 0x16, 0x17, 0x19, 0x1A, 0x1B, 0x1C, 0x1D, 0x21, 0x1E, 0x1F, 0x20,
];

pub open spec fn cmd_translation() -> Seq<u32> {
    seq![
        0x0u32, 0x1, 0x4, 0x6, 0x7, 0x8, 0x9, 0xA, 0xB, 0xC, 0xD, 0xE, 0xF, 0x10, 0x11, 0x12, 0x13, 0x14, 0x15, 0x16, 0x17, 0x19, 0x1A, 0x1B, 0x1C, 0x1D, 0x21, 0x1E,
        0x1F, 0x20
    ]
}

/// A driver command, decoded from its number and its four arguments.
#[derive(Clone, Copy, Debug, PartialEq, Eq, Structural)]
pub enum SoundCmd {
    /// Prepares a sequence and starts it.
    StartSequenceNow { seq_id: u32, notedata: u32, noteoffset: u32, sbnk: u32 },
    /// Finishes a sequence that plays.
    StopSequence { seq_id: u32 },
    /// Prepares a sequence without starting it.
    PrepareSequence { seq_id: u32, notedata: u32, noteoffset: u32, sbnk: u32 },
    /// Starts a prepared sequence.
    StartSequence { seq_id: u32 },
    /// Sets a sequence parameter.
    SequenceParam { seq_id: u32, key: u32, val: u32 },
    /// Sets a parameter of the selected tracks of a sequence.
    TrackParam { seq_id: u32, trackmask: u32, key: u32, val: u32 },
    /// Sets the channel mask of the selected tracks of a sequence.
    TrackChannelMask { seq_id: u32, trackmask: u32, chanmask: u16 },
    /// Writes a halfword variable of a sequence in shared memory.
    SharedVar { seq_index: u32, var: u32, value: u16 },
    /// Starts channels, captures and alarms.
    StartHardware { chan_mask: u32, cap_mask: u32, alarm_mask: u32 },
    /// Stops alarms, channels (holding them when `hold`) and captures.
    StopHardware { chan_mask: u32, cap_mask: u32, alarm_mask: u32, hold: bool },
    /// Sets a channel up to play a wave.
    SetupWave { id: u32, srcaddr: u32, format: u32, repeat: u32, loop_pos: u32, len: u32, vol: u32, vol_div: u32, freq: u32, pan: u32 },
    /// Sets a channel up to play a square wave.
    SetupPsg { id: u32, duty: u32, vol: u32, vol_div: u32, freq: u32, pan: u32 },
    /// Sets a channel up to play noise.
    SetupNoise { id: u32, vol: u32, vol_div: u32, freq: u32, pan: u32 },
    /// Sets a capture unit up: its control value, destination and length.
    SetupCapture { num: u32, cnt: u32, dst: u32, len: u32 },
    /// Sets an alarm up.
    SetAlarm { num: u32, delay: u32, repeat: u32, param: u32 },
    /// Sets the volume of the selected channels.
    ChannelVolume { chan_mask: u32, vol: u32, vol_div: u32 },
    /// Sets the pan of the selected channels.
    ChannelPan { chan_mask: u32, pan: u32 },
    /// Sets the surround decay.
    SurroundDecay { decay: u32 },
    /// Sets the master volume to full.
    MasterVolume,
    /// Overrides (or, when negative, restores) the pan of every channel.
    MasterPan { pan: i32 },
    /// Selects the mixer outputs.
    OutputSelect { left: u32, right: u32, mix1: u32, mix3: u32 },
    /// Sets the address of the shared memory block.
    SharedMemory { addr: u32 },
    /// A command the driver does nothing for.
    Ignored,
}

/// The capture control value of capture command argument `a`: bits 30,
/// 28 and 27 to bits 3, 1 and 0, and bit 2 set when bit 29 is clear.
pub open spec fn capture_cnt(a: u32) -> u32 {
    (((a >> 30u32) & 1) << 3u32) | (if (a >> 29u32) & 1 != 0 {
        0u32
    } else {
        4u32
    }) | (((a >> 28u32) & 1) << 1u32) | ((a >> 27u32) & 1)
}

/// The command numbered `cmd` with arguments `args`.
pub open spec fn spec_decode_cmd(cmd: u32, args: Seq<u32>) -> SoundCmd {
    if cmd == 0x0 {
        SoundCmd::StartSequenceNow { seq_id: args[0], notedata: args[1], noteoffset: args[2], sbnk: args[3] }
    } else if cmd == 0x1 {
        SoundCmd::StopSequence { seq_id: args[0] }
    } else if cmd == 0x2 {
        SoundCmd::PrepareSequence { seq_id: args[0], notedata: args[1], noteoffset: args[2], sbnk: args[3] }
    } else if cmd == 0x3 {
        SoundCmd::StartSequence { seq_id: args[0] }
    } else if cmd == 0x6 {
        SoundCmd::SequenceParam { seq_id: args[0], key: (args[3] << 8u32) | args[1], val: args[2] }
    } else if cmd == 0x7 {
        SoundCmd::TrackParam { seq_id: args[0] & 0xFF_FFFF, trackmask: args[1], key: ((args[0] >> 24u32) << 8u32) | args[2], val: args[3] }
    } else if cmd == 0x9 {
        SoundCmd::TrackChannelMask { seq_id: args[0], trackmask: args[1], chanmask: args[2] as u16 }
    } else if cmd == 0xA {
        SoundCmd::SharedVar { seq_index: args[0], var: args[1], value: args[2] as u16 }
    } else if cmd == 0xC {
        SoundCmd::StartHardware { chan_mask: args[0], cap_mask: args[1], alarm_mask: args[2] }
    } else if cmd == 0xD {
        SoundCmd::StopHardware { chan_mask: args[0], cap_mask: args[1], alarm_mask: args[2], hold: args[3] != 0 }
    } else if cmd == 0xE {
        SoundCmd::SetupWave {
            id: args[0] & 0xFFFF,
            srcaddr: args[1] & 0x07FF_FFFF,
            format: (args[3] >> 24u32) & 0x3,
            repeat: (args[3] >> 26u32) & 0x3,
            loop_pos: args[3] & 0xFFFF,
            len: args[2] & 0x3F_FFFF,
            vol: (args[2] >> 24u32) & 0x7F,
            vol_div: (args[2] >> 22u32) & 0x3,
            freq: args[0] >> 16u32,
            pan: (args[3] >> 16u32) & 0x7F,
        }
    } else if cmd == 0xF {
        SoundCmd::SetupPsg {
            id: args[0],
            duty: args[3],
            vol: args[1] & 0x7F,
            vol_div: (args[1] >> 8u32) & 0x3,
            freq: (args[2] >> 8u32) & 0xFFFF,
            pan: args[2] & 0x7F,
        }
    } else if cmd == 0x10 {
        SoundCmd::SetupNoise { id: args[0], vol: args[1] & 0x7F, vol_div: (args[1] >> 8u32) & 0x3, freq: (args[2] >> 8u32) & 0xFFFF, pan: args[2] & 0x7F }
    } else if cmd == 0x11 {
        SoundCmd::SetupCapture { num: (args[2] >> 31u32) & 0x1, cnt: capture_cnt(args[2]), dst: args[0], len: args[1] & 0xFFFF }
    } else if cmd == 0x12 {
        SoundCmd::SetAlarm { num: args[0], delay: args[1], repeat: args[2], param: args[3] }
    } else if cmd == 0x14 {
        SoundCmd::ChannelVolume { chan_mask: args[0], vol: args[1], vol_div: args[2] }
    } else if cmd == 0x15 {
        SoundCmd::ChannelPan { chan_mask: args[0], pan: args[1] }
    } else if cmd == 0x16 {
        SoundCmd::SurroundDecay { decay: args[0] }
    } else if cmd == 0x17 {
        SoundCmd::MasterVolume
    } else if cmd == 0x18 {
        SoundCmd::MasterPan { pan: args[0] as i32 }
    } else if cmd == 0x19 {
        SoundCmd::OutputSelect { left: args[0], right: args[1], mix1: args[2], mix3: args[3] }
    } else if cmd == 0x1D {
        SoundCmd::SharedMemory { addr: args[0] }
    } else {
        SoundCmd::Ignored
    }
}

/// Decodes command number `cmd` (as the driver numbers it) with its
/// arguments.
pub fn decode_cmd(cmd: u32, args: &[u32; 4]) -> (r: SoundCmd)
    ensures
        r == spec_decode_cmd(cmd, args@),
{
    let a0 = args[0];
    let a1 = args[1];
    let a2 = args[2];
    let a3 = args[3];
    if cmd == 0x0 {
        SoundCmd::StartSequenceNow { seq_id: a0, notedata: a1, noteoffset: a2, sbnk: a3 }
    } else if cmd == 0x1 {
        SoundCmd::StopSequence { seq_id: a0 }
    } else if cmd == 0x2 {
        SoundCmd::PrepareSequence { seq_id: a0, notedata: a1, noteoffset: a2, sbnk: a3 }
    } else if cmd == 0x3 {
        SoundCmd::StartSequence { seq_id: a0 }
    } else if cmd == 0x6 {
        SoundCmd::SequenceParam { seq_id: a0, key: (a3 << 8u32) | a1, val: a2 }
    } else if cmd == 0x7 {
        SoundCmd::TrackParam { seq_id: a0 & 0xFF_FFFF, trackmask: a1, key: ((a0 >> 24u32) << 8u32) | a2, val: a3 }
    } else if cmd == 0x9 {
        SoundCmd::TrackChannelMask { seq_id: a0, trackmask: a1, chanmask: a2 as u16 }
    } else if cmd == 0xA {
        SoundCmd::SharedVar { seq_index: a0, var: a1, value: a2 as u16 }
    } else if cmd == 0xC {
        SoundCmd::StartHardware { chan_mask: a0, cap_mask: a1, alarm_mask: a2 }
    } else if cmd == 0xD {
        SoundCmd::StopHardware { chan_mask: a0, cap_mask: a1, alarm_mask: a2, hold: a3 != 0 }
    } else if cmd == 0xE {
        SoundCmd::SetupWave {
            id: a0 & 0xFFFF,
            srcaddr: a1 & 0x07FF_FFFF,
            format: (a3 >> 24u32) & 0x3,
            repeat: (a3 >> 26u32) & 0x3,
            loop_pos: a3 & 0xFFFF,
            len: a2 & 0x3F_FFFF,
            vol: (a2 >> 24u32) & 0x7F,
            vol_div: (a2 >> 22u32) & 0x3,
            freq: a0 >> 16u32,
            pan: (a3 >> 16u32) & 0x7F,
        }
    } else if cmd == 0xF {
        SoundCmd::SetupPsg { id: a0, duty: a3, vol: a1 & 0x7F, vol_div: (a1 >> 8u32) & 0x3, freq: (a2 >> 8u32) & 0xFFFF, pan: a2 & 0x7F }
    } else if cmd == 0x10 {
        SoundCmd::SetupNoise { id: a0, vol: a1 & 0x7F, vol_div: (a1 >> 8u32) & 0x3, freq: (a2 >> 8u32) & 0xFFFF, pan: a2 & 0x7F }
    } else if cmd == 0x11 {
        let num = (a2 >> 31u32) & 0x1;
        let mut cnt = ((a2 >> 30u32) & 0x1) << 3u32;
        cnt = cnt | if (a2 >> 29u32) & 0x1 != 0 {
            0
        } else {
            0x04
        };
        cnt = cnt | (((a2 >> 28u32) & 0x1) << 1u32);
        cnt = cnt | ((a2 >> 27u32) & 0x1);
        SoundCmd::SetupCapture { num, cnt, dst: a0, len: a1 & 0xFFFF }
    } else if cmd == 0x12 {
        SoundCmd::SetAlarm { num: a0, delay: a1, repeat: a2, param: a3 }
    } else if cmd == 0x14 {
        SoundCmd::ChannelVolume { chan_mask: a0, vol: a1, vol_div: a2 }
    } else if cmd == 0x15 {
        SoundCmd::ChannelPan { chan_mask: a0, pan: a1 }
    } else if cmd == 0x16 {
        SoundCmd::SurroundDecay { decay: a0 }
    } else if cmd == 0x17 {
        SoundCmd::MasterVolume
    } else if cmd == 0x18 {
        SoundCmd::MasterPan { pan: a0 as i32 }
    } else if cmd == 0x19 {
        SoundCmd::OutputSelect { left: a0, right: a1, mix1: a2, mix3: a3 }
    } else if cmd == 0x1D {
        SoundCmd::SharedMemory { addr: a0 }
    } else {
        SoundCmd::Ignored
    }
}

impl SoundNitro {
    /// The driver's number for command number `cmd` of the game: the
    /// reordering game's table, or numbers from 2 on shifted by the game's
    /// offset.
    pub fn translate_cmd(&self, cmd: u32) -> (r: u32)
        requires
            self.cmd_translate ==> cmd < 30,
            !self.cmd_translate && cmd >= 2 ==> cmd + self.cmd_offset <= u32::MAX,
        ensures
            r == if self.cmd_translate {
                cmd_translation()[cmd as int]
            } else if cmd >= 2 {
                (cmd + self.cmd_offset) as u32
            } else {
                cmd
            },
    {
        if self.cmd_translate {
            let table = CMD_TRANSLATION;
            assert(table@ == cmd_translation());
            table[cmd as usize]
        } else if cmd >= 2 {
            cmd + self.cmd_offset
        } else {
            cmd
        }
    }

    /// Marks sequence `seq_id` started (flag 1).
    pub fn start_sequence(&mut self, seq_id: usize)
        requires
            old(self).wf(),
            seq_id < SEQUENCE_COUNT,
        ensures
            final(self).same_scalars(old(self)),
            final(self).alarms == old(self).alarms,
            final(self).wf(),
            final(self).channels == old(self).channels,
            final(self).tracks == old(self).tracks,
            final(self).sequences@ == old(self).sequences@.update(
                seq_id as int,
                (Sequence { status_flags: old(self).sequences@[seq_id as int].status_flags | 2, ..old(self).sequences@[seq_id as int] }),
            ),
    {
        let mut q = self.sequences[seq_id];
        q.status_flags = q.status_flags | 2;
        let ghost before = *self;
        self.sequences[seq_id] = q;
        proof {
            assert forall|qq: int, i: int| 0 <= qq < SEQUENCE_COUNT && 0 <= i < 16 implies (#[trigger] self.sequences@[qq].tracks@[i] == NO_TRACK
                || self.sequences@[qq].tracks@[i] < TRACK_COUNT) by {
                assert(before.sequences@[qq].tracks@[i] == NO_TRACK || before.sequences@[qq].tracks@[i] < TRACK_COUNT);
            }
        }
    }
}

/// Whether the channel numbered `id` is one that `mask` offers.
pub open spec fn offered(mask: u16, id: usize) -> bool {
    mask & (1u16 << (id as u16)) != 0
}

/// The channel that a note takes is offered by the mask and no offered
/// channel would be a better one to take; none is taken only when the mask
/// offers none.
pub proof fn law_alloc_pick_minimal(chs: Seq<Channel>, mask: u16)
    ensures
        alloc_pick(chs, mask, CHANNEL_COUNT as nat) matches Some(p) ==> {
            &&& offered(mask, p)
            &&& forall|k: int| 0 <= k < CHANNEL_COUNT && #[trigger] offered(mask, chan_order()[k]) ==> !takes_over(chs[chan_order()[k] as int], chs[p as int])
        },
        alloc_pick(chs, mask, CHANNEL_COUNT as nat) is None ==> forall|k: int| 0 <= k < CHANNEL_COUNT ==> !#[trigger] offered(mask, chan_order()[k]),
{
    lemma_alloc_pick_minimal(chs, mask, CHANNEL_COUNT as nat);
}

proof fn lemma_alloc_pick_minimal(chs: Seq<Channel>, mask: u16, n: nat)
    requires
        n <= CHANNEL_COUNT,
    ensures
        alloc_pick(chs, mask, n) matches Some(p) ==> {
            &&& offered(mask, p)
            &&& forall|k: int| 0 <= k < n && #[trigger] offered(mask, chan_order()[k]) ==> !takes_over(chs[chan_order()[k] as int], chs[p as int])
        },
        alloc_pick(chs, mask, n) is None ==> forall|k: int| 0 <= k < n ==> !#[trigger] offered(mask, chan_order()[k]),
    decreases n,
{
    if n > 0 {
        lemma_alloc_pick_minimal(chs, mask, (n - 1) as nat);
        let id = chan_order()[n - 1];
        let prev = alloc_pick(chs, mask, (n - 1) as nat);
        if let Some(p) = alloc_pick(chs, mask, n) {
            assert forall|k: int| 0 <= k < n && #[trigger] offered(mask, chan_order()[k]) implies !takes_over(
                chs[chan_order()[k] as int],
                chs[p as int],
            ) by {
                if k < n - 1 {
                    if let Some(q) = prev {
                        assert(!takes_over(chs[chan_order()[k] as int], chs[q as int]));
                    }
                }
            }
        }
    }
}

/// What is left of a command once the driver applied its part on its own
/// records: the command itself, for its sound hardware, shared memory and
/// note data part; the alarms started, each with the cycles until it
/// rings; and whether the stopped sequence's bit in the shared active mask
/// is to be cleared.
pub struct SoundCmdRest {
    pub cmd: SoundCmd,
    pub alarm_schedule: Vec<(u16, u32)>,
    pub clear_active: bool,
}

/// Whether the driver can apply command `cmd`: the sequences it names
/// exist, and the alarms it starts ring in a number of cycles that fits.
pub open spec fn cmd_applicable(s: SoundNitro, cmd: SoundCmd) -> bool {
    match cmd {
        SoundCmd::StopSequence { seq_id } => seq_id < SEQUENCE_COUNT,
        SoundCmd::StartSequence { seq_id } => seq_id < SEQUENCE_COUNT,
        SoundCmd::SequenceParam { seq_id, .. } => seq_id < SEQUENCE_COUNT,
        SoundCmd::TrackParam { seq_id, .. } => seq_id < SEQUENCE_COUNT,
        SoundCmd::TrackChannelMask { seq_id, .. } => seq_id < SEQUENCE_COUNT,
        SoundCmd::StartHardware { .. } => forall|i: int| 0 <= i < 8 ==> #[trigger] s.alarms@[i].delay * 64 <= u32::MAX,
        _ => true,
    }
}

impl SoundNitro {
    /// Applies the driver's own part of command `cmd`: sequences stopped
    /// and started, sequence and track parameters and channel masks set,
    /// alarms set up, started and stopped, and the surround decay, master
    /// pan and shared memory address taken; the rest is returned.
    pub fn apply_cmd(&mut self, cmd: SoundCmd) -> (r: SoundCmdRest)
        requires
            old(self).wf(),
            cmd_applicable(*old(self), cmd),
        ensures
            final(self).wf(),
            r.cmd == cmd,
            final(self).cmd_queue@ == old(self).cmd_queue@,
            final(self).counter == old(self).counter,
            match cmd {
                SoundCmd::StopSequence { seq_id } => {
                    let active = old(self).sequences@[seq_id as int].status_flags & 1 != 0;
                    &&& r.clear_active == (active && old(self).shared_mem != 0)
                    &&& !active ==> final(self).channels == old(self).channels && final(self).tracks == old(self).tracks
                        && final(self).sequences == old(self).sequences
                    &&& active ==> {
                        &&& (final(self).channels@, final(self).tracks@) == finish_slots(
                            old(self).channels@,
                            old(self).tracks@,
                            old(self).sequences@[seq_id as int],
                            16,
                        )
                        &&& forall|i: int| 0 <= i < 16 ==> #[trigger] final(self).sequences@[seq_id as int].tracks@[i] == NO_TRACK
                        &&& final(self).sequences@[seq_id as int].status_flags == old(self).sequences@[seq_id as int].status_flags & !1u8
                        &&& forall|q: int| 0 <= q < SEQUENCE_COUNT && q != seq_id ==> #[trigger] final(self).sequences@[q] == old(self).sequences@[q]
                    }
                },
                SoundCmd::StartSequence { seq_id } => {
                    &&& final(self).sequences@ == old(self).sequences@.update(
                        seq_id as int,
                        (Sequence { status_flags: old(self).sequences@[seq_id as int].status_flags | 2, ..old(self).sequences@[seq_id as int] }),
                    )
                    &&& final(self).tracks == old(self).tracks
                },
                SoundCmd::SequenceParam { seq_id, key, val } => {
                    &&& final(self).sequences@ == old(self).sequences@.update(seq_id as int, seq_param(old(self).sequences@[seq_id as int], key, val))
                    &&& final(self).tracks == old(self).tracks
                },
                SoundCmd::TrackParam { seq_id, trackmask, key, val } => {
                    &&& final(self).sequences == old(self).sequences
                    &&& forall|t: int|
                        0 <= t < TRACK_COUNT ==> #[trigger] final(self).tracks@[t] == if in_masked_slots(old(self).sequences@[seq_id as int], trackmask, t) {
                            track_param(old(self).tracks@[t], key, val)
                        } else {
                            old(self).tracks@[t]
                        }
                },
                SoundCmd::TrackChannelMask { seq_id, trackmask, chanmask } => {
                    &&& final(self).sequences == old(self).sequences
                    &&& forall|t: int|
                        0 <= t < TRACK_COUNT ==> #[trigger] final(self).tracks@[t] == if in_masked_slots(old(self).sequences@[seq_id as int], trackmask, t) {
                            masked_track(old(self).tracks@[t], chanmask)
                        } else {
                            old(self).tracks@[t]
                        }
                },
                SoundCmd::StartHardware { alarm_mask, .. } => {
                    &&& forall|i: int|
                        0 <= i < 8 ==> #[trigger] final(self).alarms@[i] == if alarm_mask & (1u32 << (i as u32)) != 0 {
                            Alarm { active: true, ..old(self).alarms@[i] }
                        } else {
                            old(self).alarms@[i]
                        }
                    &&& forall|k: int| 0 <= k < r.alarm_schedule@.len() ==> alarm_mask & (1u32 << (#[trigger] r.alarm_schedule@[k].0 as u32)) != 0
                        && r.alarm_schedule@[k].0 < 8
                    &&& forall|k: int, l: int| 0 <= k < l < r.alarm_schedule@.len() ==> r.alarm_schedule@[k].0 < r.alarm_schedule@[l].0
                    &&& forall|i: int| 0 <= i < 8 && #[trigger] bit_set(alarm_mask, i) ==> exists|k: int|
                        0 <= k < r.alarm_schedule@.len() && #[trigger] r.alarm_schedule@[k].0 == i
                    &&& forall|k: int|
                        0 <= k < r.alarm_schedule@.len() ==> #[trigger] r.alarm_schedule@[k].1 == if old(self).alarms@[r.alarm_schedule@[k].0 as int].repeat
                            != 0 {
                            old(self).alarms@[r.alarm_schedule@[k].0 as int].delay * 64
                        } else {
                            0
                        }
                },
                SoundCmd::StopHardware { alarm_mask, .. } => forall|i: int|
                    0 <= i < 8 ==> #[trigger] final(self).alarms@[i] == if alarm_mask & (1u32 << (i as u32)) != 0 {
                        Alarm { active: false, ..old(self).alarms@[i] }
                    } else {
                        old(self).alarms@[i]
                    },
                SoundCmd::SetAlarm { num, delay, repeat, param } => final(self).alarms@ == old(self).alarms@.update(
                    (num % 8) as int,
                    (Alarm { active: false, delay, repeat, param: param % 256 }),
                ),
                SoundCmd::SurroundDecay { decay } => final(self).surround_decay == decay as i32,
                SoundCmd::MasterPan { pan } => final(self).master_pan == pan,
                SoundCmd::SharedMemory { addr } => final(self).shared_mem == addr,
                _ => true,
            },
            !(cmd is StopSequence) ==> !r.clear_active,
            !(cmd is StartHardware) ==> r.alarm_schedule@.len() == 0,
            !(cmd is StopSequence || cmd is StartSequence || cmd is SequenceParam || cmd is TrackParam || cmd is TrackChannelMask)
                ==> final(self).sequences == old(self).sequences && final(self).tracks == old(self).tracks && final(self).channels
                == old(self).channels,
            !(cmd is StartHardware || cmd is StopHardware || cmd is SetAlarm) ==> final(self).alarms == old(self).alarms,
            !(cmd is SurroundDecay) ==> final(self).surround_decay == old(self).surround_decay,
            !(cmd is MasterPan) ==> final(self).master_pan == old(self).master_pan,
            !(cmd is SharedMemory) ==> final(self).shared_mem == old(self).shared_mem,
    {
        let mut sched: Vec<(u16, u32)> = Vec::new();
        let mut clear_active = false;
        match cmd {
            SoundCmd::StopSequence { seq_id } => {
                let seq_id = seq_id as usize;
                if self.sequences[seq_id].status_flags & 1 != 0 {
                    self.finish_sequence(seq_id);
                    clear_active = self.shared_mem != 0;
                }
            },
            SoundCmd::StartSequence { seq_id } => {
                self.start_sequence(seq_id as usize);
            },
            SoundCmd::SequenceParam { seq_id, key, val } => {
                self.set_sequence_param(seq_id as usize, key, val);
            },
            SoundCmd::TrackParam { seq_id, trackmask, key, val } => {
                self.set_track_param(seq_id as usize, trackmask, key, val);
            },
            SoundCmd::TrackChannelMask { seq_id, trackmask, chanmask } => {
                self.set_track_channel_mask(seq_id as usize, trackmask, chanmask);
            },
            SoundCmd::StartHardware { alarm_mask, .. } => {
                sched = self.start_alarms(alarm_mask);
            },
            SoundCmd::StopHardware { alarm_mask, .. } => {
                self.stop_alarms(alarm_mask);
            },
            SoundCmd::SetAlarm { num, delay, repeat, param } => {
                self.set_alarm(num, delay, repeat, param);
            },
            SoundCmd::SurroundDecay { decay } => {
                self.surround_decay = decay as i32;
            },
            SoundCmd::MasterPan { pan } => {
                self.master_pan = pan;
            },
            SoundCmd::SharedMemory { addr } => {
                self.shared_mem = addr;
            },
            _ => {},
        }
        SoundCmdRest { cmd, alarm_schedule: sched, clear_active }
    }
}

/// A track record after `Track::init`.
pub open spec fn init_track(t: Track) -> Track {
    Track {
        note_buffer: 0,
        cur_note_addr: 0,
        status_flags: (t.status_flags | 0x42) & !0xBCu8,
        loop_level: 0,
        instr_index: 0,
        priority: 64,
        volume: 127,
        expression: 127,
        track_unk0a: 0,
        pan: 0,
        track_unk09: 0,
        pitch_bend: 0,
        frequency: 0,
        attack_rate: 255,
        decay_rate: 255,
        sustain_rate: 255,
        release_rate: 255,
        track_unk01: 127,
        pitch_bend_range: 2,
        track_unk14: 60,
        portamento_time: 0,
        sweep_pitch: 0,
        transpose: 0,
        channel_mask: 0xFFFF,
        modulation_type: 0,
        modulation_depth: 0,
        modulation_range: 1,
        modulation_speed: 16,
        modulation_delay: 0,
        rest_counter: 0,
        chan_list: None,
        ..t
    }
}

/// A free track taken (flag 0 set) and set up to play from the start.
pub open spec fn taken_track(t: Track) -> Track {
    init_track(Track { status_flags: t.status_flags | 1, ..t })
}

/// The tracks and slots after the slots from `i` to 15 that `mask`
/// selects each take the first free track, in slot order, until no track
/// is free.
pub open spec fn alloc_slots(trs: Seq<Track>, slots: Seq<usize>, mask: u16, i: int) -> (Seq<Track>, Seq<usize>)
    decreases 16 - i,
{
    if i < 1 || i >= 16 {
        (trs, slots)
    } else if mask & (1u16 << (i as u16)) == 0 {
        alloc_slots(trs, slots, mask, i + 1)
    } else {
        match first_free(trs, 0) {
            None => (trs, slots),
            Some(t) => alloc_slots(trs.update(t as int, taken_track(trs[t as int])), slots.update(i, t), mask, i + 1),
        }
    }
}

/// A sequence record set up to play: default tempo, tick counter, volume
/// and pan, the bank address `sbnk`, no tracks, flag 2 clear.
pub open spec fn init_seq_fields(q: Sequence, sbnk: u32) -> bool {
    &&& q.sbnk_addr == sbnk
    &&& q.tempo == 0x78
    &&& q.seq_unk1a == 0x100
    &&& q.tick_counter == 240
    &&& q.volume == 127
    &&& q.seq_unk06 == 0
    &&& q.pan == 64
}

/// What the caller writes to shared memory after a sequence is prepared:
/// the sequence's block (a zero word at offset 0x40, 0xFFFF in each of the
/// 16 variables from offset 0x20), and whether its bit in the active mask
/// (the word at offset 4) is set.
#[derive(Clone, Copy, Debug, PartialEq, Eq, Structural)]
pub struct SeqPrepared {
    pub seqdata: Option<u32>,
    pub set_active: bool,
}

impl SoundNitro {
    /// Sets sequence `seq_id` up to play with sound bank `sbnk`: default
    /// tempo and volume, no tracks, flag 2 clear. Returns the address of
    /// the sequence's block in shared memory, when there is one, for the
    /// caller to reset.
    pub fn init_sequence(&mut self, seq_id: usize, sbnk: u32) -> (r: Option<u32>)
        requires
            old(self).wf(),
            seq_id < SEQUENCE_COUNT,
            old(self).shared_mem != 0 ==> old(self).shared_mem + old(self).sequences@[seq_id as int].id * 0x24 <= u32::MAX,
        ensures
            final(self).wf(),
            final(self).same_scalars(old(self)),
            final(self).alarms == old(self).alarms,
            final(self).channels == old(self).channels,
            final(self).tracks == old(self).tracks,
            r == if old(self).shared_mem != 0 {
                Some((old(self).shared_mem + old(self).sequences@[seq_id as int].id * 0x24) as u32)
            } else {
                None
            },
            init_seq_fields(final(self).sequences@[seq_id as int], sbnk),
            final(self).sequences@[seq_id as int].status_flags == old(self).sequences@[seq_id as int].status_flags & !4u8,
            final(self).sequences@[seq_id as int].id == old(self).sequences@[seq_id as int].id,
            forall|i: int| 0 <= i < 16 ==> #[trigger] final(self).sequences@[seq_id as int].tracks@[i] == NO_TRACK,
            forall|q: int| 0 <= q < SEQUENCE_COUNT && q != seq_id ==> #[trigger] final(self).sequences@[q] == old(self).sequences@[q],
    {
        let mut q = self.sequences[seq_id];
        q.status_flags = q.status_flags & !4u8;
        q.sbnk_addr = sbnk;
        q.tempo = 0x78;
        q.seq_unk1a = 0x100;
        q.tick_counter = 240;
        q.volume = 127;
        q.seq_unk06 = 0;
        q.pan = 64;
        q.tracks = [NO_TRACK; 16];
        let ghost before = *self;
        self.sequences[seq_id] = q;
        proof {
            assert forall|qq: int, i: int| 0 <= qq < SEQUENCE_COUNT && 0 <= i < 16 implies (#[trigger] self.sequences@[qq].tracks@[i] == NO_TRACK
                || self.sequences@[qq].tracks@[i] < TRACK_COUNT) by {
                assert(before.sequences@[qq].tracks@[i] == NO_TRACK || before.sequences@[qq].tracks@[i] < TRACK_COUNT);
            }
        }
        if self.shared_mem != 0 {
            Some(self.shared_mem + (q.id as u32) * 0x24)
        } else {
            None
        }
    }

    /// Prepares sequence `seq_id` to play the notes at `notedata` plus
    /// `noteoffset` with sound bank `sbnk`, `head` being the first three
    /// bytes there: a playing sequence is finished first; the sequence is
    /// set up and its first slot takes the first free track, which plays
    /// from there; when the notes start with 0xFE, the next two bytes
    /// select further slots (bits 1 to 15), each taking the next free
    /// track, and the notes start after them. With a track taken the
    /// sequence is marked playing (flag 0) and not started (flag 1).
    pub fn prepare_sequence(&mut self, seq_id: usize, notedata: u32, noteoffset: u32, sbnk: u32, head: &[u8; 3]) -> (r: SeqPrepared)
        requires
            old(self).wf(),
            seq_id < SEQUENCE_COUNT,
            notedata + noteoffset + 3 <= u32::MAX,
            old(self).shared_mem != 0 ==> old(self).shared_mem + old(self).sequences@[seq_id as int].id * 0x24 <= u32::MAX,
        ensures
            final(self).wf(),
            final(self).same_scalars(old(self)),
            final(self).alarms == old(self).alarms,
            ({
                let q0 = old(self).sequences@[seq_id as int];
                let active = q0.status_flags & 1 != 0;
                let fin = if active {
                    finish_slots(old(self).channels@, old(self).tracks@, q0, 16)
                } else {
                    (old(self).channels@, old(self).tracks@)
                };
                let st = (if active {
                    q0.status_flags & !1u8
                } else {
                    q0.status_flags
                }) & !4u8;
                let q = final(self).sequences@[seq_id as int];
                &&& final(self).channels@ == fin.0
                &&& r.seqdata == if old(self).shared_mem != 0 {
                    Some((old(self).shared_mem + q0.id * 0x24) as u32)
                } else {
                    None
                }
                &&& init_seq_fields(q, sbnk)
                &&& q.id == q0.id
                &&& forall|o: int| 0 <= o < SEQUENCE_COUNT && o != seq_id ==> #[trigger] final(self).sequences@[o] == old(self).sequences@[o]
                &&& match first_free(fin.1, 0) {
                    None => {
                        &&& final(self).tracks@ == fin.1
                        &&& q.tracks@ == Seq::new(16, |i: int| NO_TRACK)
                        &&& q.status_flags == st
                        &&& !r.set_active
                    },
                    Some(t0) => {
                        let start = if head[0] == 0xFE {
                            notedata + noteoffset + 3
                        } else {
                            notedata + noteoffset
                        };
                        let trs1 = fin.1.update(
                            t0 as int,
                            (Track { note_buffer: notedata, cur_note_addr: start as u32, ..taken_track(fin.1[t0 as int]) }),
                        );
                        let slots1 = Seq::new(16, |i: int| NO_TRACK).update(0, t0);
                        let after = if head[0] == 0xFE {
                            alloc_slots(trs1, slots1, (head[1] as u16) | ((head[2] as u16) << 8u16), 1)
                        } else {
                            (trs1, slots1)
                        };
                        &&& final(self).tracks@ == after.0
                        &&& q.tracks@ == after.1
                        &&& q.status_flags == (st | 1) & !2u8
                        &&& r.set_active == (old(self).shared_mem != 0)
                    },
                }
            }),
    {
        let ghost q0 = old(self).sequences@[seq_id as int];
        if self.sequences[seq_id].status_flags & 1 != 0 {
            self.finish_sequence(seq_id);
        }
        let ghost fin_ch = self.channels@;
        let ghost fin_tr = self.tracks@;
        let seqdata = self.init_sequence(seq_id, sbnk);
        let mut set_active = false;
        if let Some(track_id) = self.allocate_free_track() {
            let mut t = self.tracks[track_id];
            t.init();
            t.note_buffer = notedata;
            t.cur_note_addr = notedata + noteoffset;
            let mut q = self.sequences[seq_id];
            q.tracks[0] = track_id;
            let ghost before = *self;
            if head[0] == 0xFE {
                t.cur_note_addr = t.cur_note_addr + 3;
            }
            self.tracks[track_id] = t;
            self.sequences[seq_id] = q;
            proof {
                assert(same_links(before.channels@, self.channels@));
                assert forall|u: int| 0 <= u < TRACK_COUNT implies #[trigger] ends_within(self.channels@, self.tracks@[u].chan_list, CHANNEL_COUNT as nat) by {
                    assert(ends_within(before.channels@, before.tracks@[u].chan_list, CHANNEL_COUNT as nat));
                }
                assert forall|qq: int, i: int| 0 <= qq < SEQUENCE_COUNT && 0 <= i < 16 implies (#[trigger] self.sequences@[qq].tracks@[i] == NO_TRACK
                    || self.sequences@[qq].tracks@[i] < TRACK_COUNT) by {
                    assert(before.sequences@[qq].tracks@[i] == NO_TRACK || before.sequences@[qq].tracks@[i] < TRACK_COUNT);
                }
                assert(self.sequences@[seq_id as int].tracks@ =~= Seq::new(16, |i: int| NO_TRACK).update(0, track_id));
                let start = if head[0] == 0xFE {
                    notedata + noteoffset + 3
                } else {
                    notedata + noteoffset
                };
                assert(self.tracks@ =~= fin_tr.update(
                    track_id as int,
                    (Track { note_buffer: notedata, cur_note_addr: start as u32, ..taken_track(fin_tr[track_id as int]) }),
                ));
            }
            if head[0] == 0xFE {
                let mask = (head[1] as u16) | ((head[2] as u16) << 8u16);
                let ghost target = alloc_slots(self.tracks@, self.sequences@[seq_id as int].tracks@, mask, 1);
                let mut i: usize = 1;
                while i < 16
                    invariant_except_break
                        alloc_slots(self.tracks@, self.sequences@[seq_id as int].tracks@, mask, i as int) == target,
                    invariant
                        1 <= i <= 16,
                        seq_id < SEQUENCE_COUNT,
                        self.wf(),
                        self.same_scalars(old(self)),
                        self.alarms == old(self).alarms,
                        self.channels@ == fin_ch,
                        init_seq_fields(self.sequences@[seq_id as int], sbnk),
                        self.sequences@[seq_id as int].id == q0.id,
                        self.sequences@[seq_id as int].status_flags == before.sequences@[seq_id as int].status_flags,
                        forall|o: int| 0 <= o < SEQUENCE_COUNT && o != seq_id ==> #[trigger] self.sequences@[o] == old(self).sequences@[o],
                    ensures
                        (self.tracks@, self.sequences@[seq_id as int].tracks@) == target,
                    decreases 16 - i,
                {
                    let ghost trs_i = self.tracks@;
                    let ghost sl_i = self.sequences@[seq_id as int].tracks@;
                    if mask & (1u16 << (i as u16)) != 0 {
                        match self.allocate_free_track() {
                            None => {
                                break;
                            },
                            Some(t2) => {
                                let mut t = self.tracks[t2];
                                t.init();
                                let ghost mid = *self;
                                self.tracks[t2] = t;
                                let mut q = self.sequences[seq_id];
                                q.tracks[i] = t2;
                                self.sequences[seq_id] = q;
                                proof {
                                    assert(self.tracks@ =~= trs_i.update(t2 as int, taken_track(trs_i[t2 as int])));
                                    assert(self.sequences@[seq_id as int].tracks@ =~= sl_i.update(i as int, t2));
                                    assert(same_links(mid.channels@, self.channels@));
                                    assert forall|u: int| 0 <= u < TRACK_COUNT implies #[trigger] ends_within(self.channels@, self.tracks@[u].chan_list, CHANNEL_COUNT as nat) by {
                                        assert(ends_within(mid.channels@, mid.tracks@[u].chan_list, CHANNEL_COUNT as nat));
                                    }
                                    assert forall|qq: int, j: int| 0 <= qq < SEQUENCE_COUNT && 0 <= j < 16 implies (#[trigger] self.sequences@[qq].tracks@[j] == NO_TRACK
                                        || self.sequences@[qq].tracks@[j] < TRACK_COUNT) by {
                                        assert(mid.sequences@[qq].tracks@[j] == NO_TRACK || mid.sequences@[qq].tracks@[j] < TRACK_COUNT);
                                    }
                                }
                            },
                        }
                    }
                    i = i + 1;
                }
            }
            let mut q = self.sequences[seq_id];
            q.status_flags = q.status_flags | 1;
            q.status_flags = q.status_flags & !2u8;
            let ghost before2 = *self;
            self.sequences[seq_id] = q;
            proof {
                assert forall|qq: int, i: int| 0 <= qq < SEQUENCE_COUNT && 0 <= i < 16 implies (#[trigger] self.sequences@[qq].tracks@[i] == NO_TRACK
                    || self.sequences@[qq].tracks@[i] < TRACK_COUNT) by {
                    assert(before2.sequences@[qq].tracks@[i] == NO_TRACK || before2.sequences@[qq].tracks@[i] < TRACK_COUNT);
                }
            }
            set_active = self.shared_mem != 0;
        } else {
            proof {
                assert(self.sequences@[seq_id as int].tracks@ =~= Seq::new(16, |i: int| NO_TRACK));
            }
        }
        SeqPrepared { seqdata, set_active }
    }
}

/// A note-stream instruction of a track with its operands as read: the
/// opcode, whether its condition prefix lets it run, its parameter, the
/// operand byte read before the parameter (track number of 0x93, variable
/// index of 0xB0 to 0xBD), the velocity byte of a note, and the address of
/// the instruction that follows it.
#[derive(Clone, Copy, Debug, PartialEq, Eq, Structural)]
pub struct NoteOp {
    pub op: u8,
    pub cond: bool,
    pub arg: u32,
    pub extra: u8,
    pub speed: u8,
    pub next_addr: u32,
}

/// What a note-stream instruction asks of its caller.
#[derive(Clone, Copy, Debug, PartialEq, Eq, Structural)]
pub enum TrackAction {
    /// Nothing: the track goes on while its rest counter is zero.
    Done,
    /// Key on a note: its pitch, velocity and length (-1 for endless), and the
    /// note the track held before it, where portamento sweeps from.
    KeyOn { tune: u8, speed: u8, len: i32, prev_note: i8 },
    /// Finish (release rate kept) and unlink the channels of a track.
    StopTrack { track_id: usize },
    /// Store `value` in the variable at `addr`.
    VarWrite { addr: u32, value: u16 },
    /// Store `var_update(op, v, param)` in the variable at `addr`, `v` being
    /// its value now.
    VarUpdate { op: u8, addr: u32, param: i16 },
    /// Compare the variable at `addr` with `param` by `var_test(op, ..)` and
    /// report it with `set_track_cond`.
    VarTest { op: u8, addr: u32, param: i16 },
    /// The track ends.
    End,
}

/// The pitch a note key plays at on track `t`: its key moved by the track's
/// transposition, kept within 0 to 127.
pub open spec fn note_tune(t: Track, key: u8) -> u8 {
    let v = key as int + t.transpose as int;
    if v < 0 {
        0
    } else if v > 127 {
        127
    } else {
        v as u8
    }
}

/// Track `t0` after instruction `op`, beside its loop stacks (`loop_step`).
pub open spec fn track_op(t0: Track, op: NoteOp) -> Track {
    let t = Track { cur_note_addr: op.next_addr, ..t0 };
    let o = op.op;
    let p8 = op.arg as u8;
    if !op.cond {
        t
    } else if o < 0x80 {
        let len = op.arg as i32;
        let t2 = Track { track_unk14: note_tune(t, o) as i8, ..t };
        if t.status_flags & 2 != 0 {
            Track { rest_counter: len, status_flags: if len == 0 { t.status_flags | 0x10 } else { t.status_flags }, ..t2 }
        } else {
            t2
        }
    } else if o == 0x80 {
        Track { rest_counter: op.arg as i32, ..t }
    } else if o == 0x81 {
        if (op.arg as i32) < 0x10000 { Track { instr_index: op.arg as u16, ..t } } else { t }
    } else if o == 0x94 {
        Track { cur_note_addr: (t.note_buffer + op.arg) as u32, ..t }
    } else if o == 0x95 {
        if t.loop_level < 3 {
            Track { loop_level: (t.loop_level + 1) as u8, cur_note_addr: (t.note_buffer + op.arg) as u32, ..t }
        } else {
            t
        }
    } else if o == 0xC0 {
        Track { pan: (p8 as i8).wrapping_sub(64), ..t }
    } else if o == 0xC1 {
        Track { volume: p8 as usize, ..t }
    } else if o == 0xC3 {
        Track { transpose: p8 as i8, ..t }
    } else if o == 0xC4 {
        Track { pitch_bend: p8 as i8, ..t }
    } else if o == 0xC5 {
        Track { pitch_bend_range: p8, ..t }
    } else if o == 0xC6 {
        Track { priority: p8, ..t }
    } else if o == 0xC7 {
        Track { status_flags: (t.status_flags & !2u8) | ((p8 & 1) << 1u8), ..t }
    } else if o == 0xC8 {
        Track { status_flags: (t.status_flags & !8u8) | ((p8 & 1) << 3u8), ..t }
    } else if o == 0xC9 {
        Track { track_unk14: (p8 as i8).wrapping_add(t.transpose), status_flags: t.status_flags | 0x20, ..t }
    } else if o == 0xCA {
        Track { modulation_depth: p8, ..t }
    } else if o == 0xCB {
        Track { modulation_speed: p8, ..t }
    } else if o == 0xCC {
        Track { modulation_type: p8, ..t }
    } else if o == 0xCD {
        Track { modulation_range: p8, ..t }
    } else if o == 0xCE {
        Track { status_flags: (t.status_flags & !0x20u8) | ((p8 & 1) << 5u8), ..t }
    } else if o == 0xCF {
        Track { portamento_time: p8, ..t }
    } else if o == 0xD0 {
        Track { attack_rate: p8, ..t }
    } else if o == 0xD1 {
        Track { decay_rate: p8, ..t }
    } else if o == 0xD2 {
        Track { sustain_rate: p8, ..t }
    } else if o == 0xD3 {
        Track { release_rate: p8, ..t }
    } else if o == 0xD4 {
        if t.loop_level < 3 { Track { loop_level: (t.loop_level + 1) as u8, ..t } } else { t }
    } else if o == 0xD5 {
        Track { expression: p8 as usize, ..t }
    } else if o == 0xE0 {
        Track { modulation_delay: (op.arg as i16) as u16, ..t }
    } else if o == 0xE3 {
        Track { sweep_pitch: op.arg as i16, ..t }
    } else if o == 0xFC {
        if t.loop_level != 0 {
            let level = t.loop_level - 1;
            let cnt = t.loop_count@[level];
            if cnt == 1 {
                Track { loop_level: level as u8, ..t }
            } else {
                Track { cur_note_addr: t.loop_addr@[level], ..t }
            }
        } else {
            t
        }
    } else if o == 0xFD {
        if t.loop_level != 0 {
            let level = t.loop_level - 1;
            Track { cur_note_addr: t.loop_addr@[level], loop_level: level as u8, ..t }
        } else {
            t
        }
    } else {
        t
    }
}

/// The loop stacks of track `t0` after instruction `op`: a call (0x95) or a
/// loop start (0xD4) pushes the return address, the loop start its count, and
/// a loop end (0xFC) with a count counts it down.
pub open spec fn loop_step(t0: Track, op: NoteOp) -> (Seq<u32>, Seq<u8>) {
    let addrs = t0.loop_addr@;
    let counts = t0.loop_count@;
    let l = t0.loop_level as int;
    if !op.cond {
        (addrs, counts)
    } else if op.op == 0x95 && l < 3 {
        (addrs.update(l, op.next_addr), counts)
    } else if op.op == 0xD4 && l < 3 {
        (addrs.update(l, op.next_addr), counts.update(l, op.arg as u8))
    } else if op.op == 0xFC && l != 0 && counts[l - 1] > 1 {
        (addrs, counts.update(l - 1, (counts[l - 1] - 1) as u8))
    } else {
        (addrs, counts)
    }
}

/// Sequence `q` after instruction `op`: 0xC2 sets its volume, 0xE1 its tempo.
pub open spec fn seq_op(q: Sequence, op: NoteOp) -> Sequence {
    if op.cond && op.op == 0xC2 {
        Sequence { volume: (op.arg as u8) as usize, ..q }
    } else if op.cond && op.op == 0xE1 {
        Sequence { tempo: (op.arg as i16) as u16, ..q }
    } else {
        q
    }
}

/// The track of sequence `seq` with number `tnum`, if it has one.
pub open spec fn opened_track(seq: Sequence, tnum: u8) -> Option<usize> {
    if tnum > 15 || seq.tracks@[tnum as int] == NO_TRACK {
        None
    } else {
        Some(seq.tracks@[tnum as int])
    }
}

/// Whether `op` is one of the variable instructions, 0xB0 to 0xBF.
pub open spec fn is_var_op(op: u8) -> bool {
    0xB0 <= op <= 0xBF
}

/// The value a random variable instruction (0xB6) stores for bound `param`
/// and random number `cnt`: up to the bound's magnitude, with its sign.
pub open spec fn random_var(param: i16, cnt: u16) -> u16 {
    let m = if param < 0 { -(param as int) } else { param as int };
    let v = (cnt as int * (m + 1)) / 0x10000;
    (if param < 0 { -v } else { v }) as u16
}

/// The counter after one step of the driver's random number generator.
pub open spec fn next_counter(c: u32) -> u32 {
    (((c as nat * 0x19660D) % 0x1_0000_0000 + 0x3C6EF35F) % 0x1_0000_0000) as u32
}

/// What instruction `op` of track `t` in sequence `seq_id` asks for, the
/// variable block being at `shared` and the random counter at `counter`;
/// `process` tells whether notes are keyed on.
pub open spec fn track_action(
    track_id: usize,
    t: Track,
    seq: Sequence,
    shared: u32,
    counter: u32,
    process: bool,
    op: NoteOp,
) -> TrackAction {
    let o = op.op;
    let addr = if shared == 0 { 0 } else { note_param_addr(shared, seq.id, op.extra) };
    let param = op.arg as i16;
    if !op.cond {
        TrackAction::Done
    } else if o < 0x80 {
        let len = op.arg as i32;
        if t.status_flags & 4 == 0 && process {
            TrackAction::KeyOn {
                tune: note_tune(t, o),
                speed: op.speed,
                len: if len <= 0 { -1i32 } else { len },
                prev_note: t.track_unk14,
            }
        } else {
            TrackAction::Done
        }
    } else if is_var_op(o) && addr != 0 {
        if o == 0xB0 {
            TrackAction::VarWrite { addr: addr as u32, value: param as u16 }
        } else if 0xB1 <= o <= 0xB5 {
            TrackAction::VarUpdate { op: o, addr: addr as u32, param }
        } else if o == 0xB6 {
            TrackAction::VarWrite { addr: addr as u32, value: random_var(param, (next_counter(counter) / 0x10000) as u16) }
        } else if 0xB8 <= o <= 0xBD {
            TrackAction::VarTest { op: o, addr: addr as u32, param }
        } else {
            TrackAction::Done
        }
    } else if o == 0x93 {
        match opened_track(seq, op.extra) {
            Some(other) => if other != track_id { TrackAction::StopTrack { track_id: other } } else { TrackAction::Done },
            None => TrackAction::Done,
        }
    } else if o == 0xC8 {
        TrackAction::StopTrack { track_id }
    } else if o == 0xFF {
        TrackAction::End
    } else {
        TrackAction::Done
    }
}

/// The value a variable update instruction stores: the variable `v` plus,
/// minus, times or divided by `param` (all wrapping), or shifted by it (left
/// for positive, right for negative amounts).
pub open spec fn var_update(op: u8, v: i16, param: i16) -> u16 {
    if op == 0xB1 {
        v.wrapping_add(param) as u16
    } else if op == 0xB2 {
        v.wrapping_sub(param) as u16
    } else if op == 0xB3 {
        v.wrapping_mul(param) as u16
    } else if op == 0xB4 {
        if v == i16::MIN && param == -1 {
            v as u16
        } else {
            trunc_div(v as int, param as int) as u16
        }
    } else if param >= 0 {
        if param >= 16 { 0 } else { ((v as u16) << (param as u16)) as u16 }
    } else if -param >= 16 {
        if v < 0 { 0xFFFF } else { 0 }
    } else {
        (v >> ((-param) as i16)) as u16
    }
}

/// Whether a variable test instruction holds for variable `v` and `param`:
/// equal, at least, above, at most, below, different.
pub open spec fn var_test(op: u8, v: i16, param: i16) -> bool {
    if op == 0xB8 {
        v == param
    } else if op == 0xB9 {
        v >= param
    } else if op == 0xBA {
        v > param
    } else if op == 0xBB {
        v <= param
    } else if op == 0xBC {
        v < param
    } else {
        v != param
    }
}

/// The value variable update instruction `op` stores for variable `v`.
pub fn var_update_value(op: u8, v: i16, param: i16) -> (r: u16)
    requires
        0xB1 <= op <= 0xB5,
        op == 0xB4 ==> param != 0,
        op == 0xB5 ==> param != i16::MIN,
    ensures
        r == var_update(op, v, param),
{
    if op == 0xB1 {
        v.wrapping_add(param) as u16
    } else if op == 0xB2 {
        v.wrapping_sub(param) as u16
    } else if op == 0xB3 {
        v.wrapping_mul(param) as u16
    } else if op == 0xB4 {
        if v == i16::MIN && param == -1 {
            v as u16
        } else {
            let a: i32 = if v < 0 { -(v as i32) } else { v as i32 };
            let b: i32 = if param < 0 { -(param as i32) } else { param as i32 };
            let q: i32 = a / b;
            let r: i32 = if (v < 0) != (param < 0) { -q } else { q };
            proof {
                let x = v as int;
                let d = param as int;
                if d < 0 {
                    assert(x >= 0 ==> x / d == -(x / (-d))) by (nonlinear_arith)
                        requires
                            d < 0,
                    ;
                    assert(x < 0 ==> (-x) / d == -((-x) / (-d))) by (nonlinear_arith)
                        requires
                            d < 0,
                    ;
                }
            }
            r as u16
        }
    } else if param >= 0 {
        if param >= 16 {
            0
        } else {
            (v as u16) << (param as u16)
        }
    } else if -param >= 16 {
        if v < 0 {
            0xFFFF
        } else {
            0
        }
    } else {
        (v >> (-param)) as u16
    }
}

/// Whether variable test instruction `op` holds for variable `v`.
pub fn var_test_holds(op: u8, v: i16, param: i16) -> (r: bool)
    ensures
        r == var_test(op, v, param),
{
    if op == 0xB8 {
        v == param
    } else if op == 0xB9 {
        v >= param
    } else if op == 0xBA {
        v > param
    } else if op == 0xBB {
        v <= param
    } else if op == 0xBC {
        v < param
    } else {
        v != param
    }
}

/// Track `t` after instruction `op`, its loop stacks included.
pub fn stepped_track(t0: Track, op: NoteOp) -> (r: Track)
    requires
        t0.loop_level <= 3,
        (op.op == 0x94 || op.op == 0x95) ==> t0.note_buffer + op.arg <= u32::MAX,
    ensures
        r == (Track { loop_addr: r.loop_addr, loop_count: r.loop_count, ..track_op(t0, op) }),
        (r.loop_addr@, r.loop_count@) == loop_step(t0, op),
        r.chan_list == t0.chan_list,
{
    let mut t = t0;
    t.cur_note_addr = op.next_addr;
    let o = op.op;
    if !op.cond {
        return t;
    }
    if o < 0x80 {
        note_track(t, op)
    } else if o < 0xC0 {
        flow_track(t, op)
    } else if o < 0xE0 {
        param_track(t, op)
    } else {
        tail_track(t, op)
    }
}

fn note_track(t0: Track, op: NoteOp) -> (r: Track)
    requires
        op.cond,
        op.op < 0x80,
        t0.loop_level <= 3,
    ensures
        r == (Track { loop_addr: r.loop_addr, loop_count: r.loop_count, ..track_op(t0, op) }),
        (r.loop_addr@, r.loop_count@) == loop_step(t0, op),
        r.chan_list == t0.chan_list,
{
    let mut t = t0;
    t.cur_note_addr = op.next_addr;
    let v: i32 = op.op as i32 + t.transpose as i32;
    let tune: u8 = if v < 0 {
        0
    } else if v > 127 {
        127
    } else {
        v as u8
    };
    let len = op.arg as i32;
    t.track_unk14 = tune as i8;
    if t.status_flags & 2 != 0 {
        t.rest_counter = len;
        if len == 0 {
            t.status_flags = t.status_flags | 0x10;
        }
    }
    t
}

fn flow_track(t0: Track, op: NoteOp) -> (r: Track)
    requires
        op.cond,
        0x80 <= op.op < 0xC0,
        t0.loop_level <= 3,
        (op.op == 0x94 || op.op == 0x95) ==> t0.note_buffer + op.arg <= u32::MAX,
    ensures
        r == (Track { loop_addr: r.loop_addr, loop_count: r.loop_count, ..track_op(t0, op) }),
        (r.loop_addr@, r.loop_count@) == loop_step(t0, op),
        r.chan_list == t0.chan_list,
{
    let mut t = t0;
    t.cur_note_addr = op.next_addr;
    let o = op.op;
    if o == 0x80 {
        t.rest_counter = op.arg as i32;
    } else if o == 0x81 {
        if (op.arg as i32) < 0x10000 {
            t.instr_index = op.arg as u16;
        }
    } else if o == 0x94 {
        t.cur_note_addr = t.note_buffer + op.arg;
    } else if o == 0x95 {
        if t.loop_level < 3 {
            t.loop_addr[t.loop_level as usize] = t.cur_note_addr;
            t.loop_level = t.loop_level + 1;
            t.cur_note_addr = t.note_buffer + op.arg;
        }
    }
    t
}

fn param_track(t0: Track, op: NoteOp) -> (r: Track)
    requires
        op.cond,
        0xC0 <= op.op < 0xE0,
        t0.loop_level <= 3,
    ensures
        r == (Track { loop_addr: r.loop_addr, loop_count: r.loop_count, ..track_op(t0, op) }),
        (r.loop_addr@, r.loop_count@) == loop_step(t0, op),
        r.chan_list == t0.chan_list,
{
    let mut t = t0;
    t.cur_note_addr = op.next_addr;
    let o = op.op;
    let p8 = op.arg as u8;
    if o == 0xC0 {
        t.pan = (p8 as i8).wrapping_sub(64);
    } else if o == 0xC1 {
        t.volume = p8 as usize;
    } else if o == 0xC3 {
        t.transpose = p8 as i8;
    } else if o == 0xC4 {
        t.pitch_bend = p8 as i8;
    } else if o == 0xC5 {
        t.pitch_bend_range = p8;
    } else if o == 0xC6 {
        t.priority = p8;
    } else if o == 0xC7 {
        t.status_flags = (t.status_flags & !2u8) | ((p8 & 1) << 1u8);
    } else if o == 0xC8 {
        t.status_flags = (t.status_flags & !8u8) | ((p8 & 1) << 3u8);
    } else if o == 0xC9 {
        t.track_unk14 = (p8 as i8).wrapping_add(t.transpose);
        t.status_flags = t.status_flags | 0x20;
    } else if o == 0xCA {
        t.modulation_depth = p8;
    } else if o == 0xCB {
        t.modulation_speed = p8;
    } else if o == 0xCC {
        t.modulation_type = p8;
    } else if o == 0xCD {
        t.modulation_range = p8;
    } else if o == 0xCE {
        t.status_flags = (t.status_flags & !0x20u8) | ((p8 & 1) << 5u8);
    } else if o == 0xCF {
        t.portamento_time = p8;
    } else if o == 0xD0 {
        t.attack_rate = p8;
    } else if o == 0xD1 {
        t.decay_rate = p8;
    } else if o == 0xD2 {
        t.sustain_rate = p8;
    } else if o == 0xD3 {
        t.release_rate = p8;
    } else if o == 0xD4 {
        if t.loop_level < 3 {
            t.loop_addr[t.loop_level as usize] = t.cur_note_addr;
            t.loop_count[t.loop_level as usize] = p8;
            t.loop_level = t.loop_level + 1;
        }
    } else if o == 0xD5 {
        t.expression = p8 as usize;
    }
    t
}

fn tail_track(t0: Track, op: NoteOp) -> (r: Track)
    requires
        op.cond,
        0xE0 <= op.op,
        t0.loop_level <= 3,
    ensures
        r == (Track { loop_addr: r.loop_addr, loop_count: r.loop_count, ..track_op(t0, op) }),
        (r.loop_addr@, r.loop_count@) == loop_step(t0, op),
        r.chan_list == t0.chan_list,
{
    let mut t = t0;
    t.cur_note_addr = op.next_addr;
    let o = op.op;
    if o == 0xE0 {
        t.modulation_delay = (op.arg as i16) as u16;
    } else if o == 0xE3 {
        t.sweep_pitch = op.arg as i16;
    } else if o == 0xFC {
        if t.loop_level != 0 {
            let level = (t.loop_level - 1) as usize;
            let cnt = t.loop_count[level];
            if cnt != 0 {
                if cnt - 1 == 0 {
                    t.loop_level = t.loop_level - 1;
                } else {
                    t.loop_count[level] = cnt - 1;
                    t.cur_note_addr = t.loop_addr[level];
                }
            } else {
                t.loop_count[level] = 0;
                t.cur_note_addr = t.loop_addr[level];
                assert(t.loop_count@ =~= t0.loop_count@);
            }
        }
    } else if o == 0xFD {
        if t.loop_level != 0 {
            let level = (t.loop_level - 1) as usize;
            t.cur_note_addr = t.loop_addr[level];
            t.loop_level = t.loop_level - 1;
        }
    }
    t
}

/// Sequence `q` after instruction `op`.
pub fn stepped_seq(q0: Sequence, op: NoteOp) -> (r: Sequence)
    ensures
        r == seq_op(q0, op),
{
    let mut q = q0;
    if op.cond && op.op == 0xC2 {
        q.volume = (op.arg as u8) as usize;
    } else if op.cond && op.op == 0xE1 {
        q.tempo = (op.arg as i16) as u16;
    }
    q
}

impl SoundNitro {
    /// What instruction `op` asks for, the random counter stepped when it
    /// draws a random variable value.
    fn note_action(&mut self, track_id: usize, seq_id: usize, process: bool, op: NoteOp) -> (r: TrackAction)
        requires
            old(self).wf(),
            track_id < TRACK_COUNT,
            seq_id < SEQUENCE_COUNT,
            is_var_op(op.op) && old(self).shared_mem != 0 ==> note_param_addr(
                old(self).shared_mem,
                old(self).sequences@[seq_id as int].id,
                op.extra,
            ) <= u32::MAX,
            op.op == 0xB6 ==> op.arg as i16 != i16::MIN,
        ensures
            r == track_action(
                track_id,
                old(self).tracks@[track_id as int],
                old(self).sequences@[seq_id as int],
                old(self).shared_mem,
                old(self).counter,
                process,
                op,
            ),
            final(self).same_but_counter(old(self)),
            final(self).counter == (if op.cond && op.op == 0xB6 && (r is VarWrite) { next_counter(old(self).counter) } else { old(self).counter }),
    {
        let o = op.op;
        let t = self.tracks[track_id];
        if !op.cond {
            return TrackAction::Done;
        }
        if o < 0x80 {
            let v: i32 = o as i32 + t.transpose as i32;
            let tune: u8 = if v < 0 {
                0
            } else if v > 127 {
                127
            } else {
                v as u8
            };
            let len = op.arg as i32;
            if t.status_flags & 4 == 0 && process {
                return TrackAction::KeyOn { tune, speed: op.speed, len: if len <= 0 { -1 } else { len }, prev_note: t.track_unk14 };
            }
            return TrackAction::Done;
        }
        if 0xB0 <= o && o <= 0xBF {
            let addr = self.get_note_param_addr(seq_id, op.extra);
            let param = op.arg as i16;
            if addr == 0 {
                return TrackAction::Done;
            }
            if o == 0xB0 {
                return TrackAction::VarWrite { addr, value: param as u16 };
            } else if 0xB1 <= o && o <= 0xB5 {
                return TrackAction::VarUpdate { op: o, addr, param };
            } else if o == 0xB6 {
                let cnt = self.update_counter();
                let m: i32 = if param < 0 { -(param as i32) } else { param as i32 };
                assert(0 <= cnt as i32 * (m + 1) <= 0xFFFF * 0x8000) by (nonlinear_arith)
                    requires
                        0 <= m <= 0x7FFF,
                        cnt <= 0xFFFF,
                ;
                let v: i32 = (cnt as i32 * (m + 1)) / 0x10000;
                let val: i32 = if param < 0 { -v } else { v };
                return TrackAction::VarWrite { addr, value: val as u16 };
            } else if 0xB8 <= o && o <= 0xBD {
                return TrackAction::VarTest { op: o, addr, param };
            }
            return TrackAction::Done;
        }
        if o == 0x93 {
            match self.get_sequence_track_id(seq_id, op.extra as usize) {
                Some(other) => {
                    if other != track_id {
                        return TrackAction::StopTrack { track_id: other };
                    }
                },
                None => {},
            }
            return TrackAction::Done;
        }
        if o == 0xC8 {
            return TrackAction::StopTrack { track_id };
        }
        if o == 0xFF {
            return TrackAction::End;
        }
        TrackAction::Done
    }

    /// Runs note-stream instruction `op` of track `track_id` in sequence
    /// `seq_id`, with notes keyed on when `process` holds; what needs memory,
    /// the hardware or other channels comes back as an action. Opening a track
    /// (0x93) points the opened track at its notes before handing it back to be
    /// stopped.
    pub fn exec_note_op(&mut self, track_id: usize, seq_id: usize, process: bool, op: NoteOp) -> (r: TrackAction)
        requires
            old(self).wf(),
            track_id < TRACK_COUNT,
            seq_id < SEQUENCE_COUNT,
            old(self).tracks@[track_id as int].loop_level <= 3,
            (op.op == 0x93 || op.op == 0x94 || op.op == 0x95) ==> old(self).tracks@[track_id as int].note_buffer + op.arg
                <= u32::MAX,
            is_var_op(op.op) && old(self).shared_mem != 0 ==> note_param_addr(
                old(self).shared_mem,
                old(self).sequences@[seq_id as int].id,
                op.extra,
            ) <= u32::MAX,
            op.op == 0xB6 ==> op.arg as i16 != i16::MIN,
        ensures
            final(self).wf(),
            r == track_action(
                track_id,
                old(self).tracks@[track_id as int],
                old(self).sequences@[seq_id as int],
                old(self).shared_mem,
                old(self).counter,
                process,
                op,
            ),
            final(self).counter == (if op.cond && op.op == 0xB6 && (r is VarWrite) { next_counter(old(self).counter) } else { old(self).counter }),
            final(self).sequences@ == old(self).sequences@.update(seq_id as int, seq_op(old(self).sequences@[seq_id as int], op)),
            ({
                let t0 = old(self).tracks@[track_id as int];
                let t1 = Track { loop_addr: final(self).tracks@[track_id as int].loop_addr, loop_count: final(self).tracks@[track_id as int].loop_count, ..track_op(t0, op) };
                let stepped = old(self).tracks@.update(track_id as int, t1);
                &&& (final(self).tracks@[track_id as int].loop_addr@, final(self).tracks@[track_id as int].loop_count@) == loop_step(t0, op)
                &&& match r {
                    TrackAction::StopTrack { track_id: other } => if other == track_id {
                        final(self).tracks@ == stepped
                    } else {
                        final(self).tracks@ == stepped.update(
                            other as int,
                            (Track { note_buffer: t0.note_buffer, cur_note_addr: (t0.note_buffer + op.arg) as u32, ..old(self).tracks@[other as int] }),
                        )
                    },
                    _ => final(self).tracks@ == stepped,
                }
            }),
            final(self).channels == old(self).channels,
            final(self).alarms == old(self).alarms,
            final(self).cmd_queue@ == old(self).cmd_queue@,
            final(self).channel_vol == old(self).channel_vol && final(self).channel_pan == old(self).channel_pan,
            final(self).master_pan == old(self).master_pan && final(self).surround_decay == old(self).surround_decay,
            final(self).shared_mem == old(self).shared_mem && final(self).cmd_offset == old(self).cmd_offset,
            final(self).cmd_translate == old(self).cmd_translate,
    {
        let action = self.note_action(track_id, seq_id, process, op);
        let t0 = self.tracks[track_id];
        let t = stepped_track(t0, op);
        let q = stepped_seq(self.sequences[seq_id], op);
        let ghost mid = *self;
        self.tracks[track_id] = t;
        self.sequences[seq_id] = q;
        if let TrackAction::StopTrack { track_id: other } = action {
            if other != track_id {
                let mut ot = self.tracks[other];
                ot.note_buffer = t0.note_buffer;
                ot.cur_note_addr = t0.note_buffer + op.arg;
                self.tracks[other] = ot;
            }
        }
        proof {
            mid.lemma_wf_keeps_links(self);
        }
        action
    }

    /// Well-formedness holds for a driver whose channels, track lists and
    /// sequence track slots are those of a well-formed one.
    proof fn lemma_wf_keeps_links(&self, other: &SoundNitro)
        requires
            self.wf(),
            other.channels == self.channels,
            forall|t: int| 0 <= t < TRACK_COUNT ==> #[trigger] other.tracks@[t].chan_list == self.tracks@[t].chan_list,
            forall|q: int| 0 <= q < SEQUENCE_COUNT ==> #[trigger] other.sequences@[q].tracks == self.sequences@[q].tracks,
        ensures
            other.wf(),
    {
        assert forall|t: int| 0 <= t < TRACK_COUNT implies #[trigger] ends_within(other.channels@, other.tracks@[t].chan_list, CHANNEL_COUNT as nat) by {
            assert(ends_within(self.channels@, self.tracks@[t].chan_list, CHANNEL_COUNT as nat));
        }
        assert forall|q: int, i: int| 0 <= q < SEQUENCE_COUNT && 0 <= i < 16 implies (#[trigger] other.sequences@[q].tracks@[i] == NO_TRACK
            || other.sequences@[q].tracks@[i] < TRACK_COUNT) by {
            assert(other.sequences@[q].tracks == self.sequences@[q].tracks);
            assert(self.sequences@[q].tracks@[i] == NO_TRACK || self.sequences@[q].tracks@[i] < TRACK_COUNT);
        }
    }

    /// Records the outcome of a variable test instruction on track
    /// `track_id`: flag 6, which conditional instructions check.
    pub fn set_track_cond(&mut self, track_id: usize, holds: bool)
        requires
            old(self).wf(),
            track_id < TRACK_COUNT,
        ensures
            final(self).wf(),
            final(self).same_scalars(old(self)),
            final(self).channels == old(self).channels && final(self).sequences == old(self).sequences,
            final(self).alarms == old(self).alarms,
            final(self).tracks@ == old(self).tracks@.update(
                track_id as int,
                (Track {
                    status_flags: if holds {
                        old(self).tracks@[track_id as int].status_flags | 0x40
                    } else {
                        old(self).tracks@[track_id as int].status_flags & !0x40u8
                    },
                    ..old(self).tracks@[track_id as int]
                }),
            ),
    {
        let mut t = self.tracks[track_id];
        if holds {
            t.status_flags = t.status_flags | 0x40;
        } else {
            t.status_flags = t.status_flags & !0x40u8;
        }
        self.tracks[track_id] = t;
    }
}

/// Track `t` at the start of a tick, before its instructions run, and
/// whether they run: a track holding its last note (flag 4) waits for its
/// channels to end, and a rest counts down first.
pub open spec fn track_gate(t: Track) -> (Track, bool) {
    if t.status_flags & 0x10 != 0 && t.chan_list is Some {
        (t, false)
    } else {
        let t1 = if t.status_flags & 0x10 != 0 { Track { status_flags: t.status_flags & !0x10u8, ..t } } else { t };
        if t1.rest_counter > 0 {
            let t2 = Track { rest_counter: (t1.rest_counter - 1) as i32, ..t1 };
            (t2, t2.rest_counter <= 0)
        } else {
            (t1, true)
        }
    }
}

/// A track that waits for its notes (flag 1) ends its run of instructions at
/// every note: the note sets its rest, or, with no length, holds the track.
pub proof fn law_waiting_note_ends_run(t: Track, op: NoteOp)
    requires
        op.cond,
        op.op < 0x80,
        t.status_flags & 2 != 0,
    ensures
        track_op(t, op).rest_counter != 0 || track_op(t, op).status_flags & 0x10 != 0,
{
    let f = t.status_flags;
    assert((f | 0x10u8) & 0x10u8 != 0) by (bit_vector);
}

impl SoundNitro {
    /// Starts a tick of track `track_id`: returns whether its instructions
    /// run now (they then run while its rest counter is zero and it does not
    /// hold a note).
    pub fn begin_track_run(&mut self, track_id: usize) -> (run: bool)
        requires
            old(self).wf(),
            track_id < TRACK_COUNT,
        ensures
            final(self).wf(),
            final(self).same_scalars(old(self)),
            final(self).channels == old(self).channels && final(self).sequences == old(self).sequences,
            final(self).alarms == old(self).alarms,
            final(self).tracks@ == old(self).tracks@.update(track_id as int, track_gate(old(self).tracks@[track_id as int]).0),
            run == track_gate(old(self).tracks@[track_id as int]).1,
    {
        let mut t = self.tracks[track_id];
        if t.status_flags & 0x10 != 0 {
            if t.chan_list.is_some() {
                return false;
            }
            t.status_flags = t.status_flags & !0x10u8;
        }
        let mut run = true;
        if t.rest_counter > 0 {
            t.rest_counter = t.rest_counter - 1;
            if t.rest_counter > 0 {
                run = false;
            }
        }
        let ghost mid = *self;
        self.tracks[track_id] = t;
        proof {
            mid.lemma_wf_keeps_links(self);
        }
        run
    }
}

/// The mask of the sequences among the first `n` that play (flag 0).
pub open spec fn active_mask(seqs: Seq<Sequence>, n: int) -> u32
    decreases n,
{
    if n <= 0 {
        0
    } else if seqs[n - 1].status_flags & 1 != 0 {
        active_mask(seqs, n - 1) | (1u32 << ((n - 1) as u32))
    } else {
        active_mask(seqs, n - 1)
    }
}

impl SoundNitro {
    /// Takes the whole ticks (240 units each) that sequence `seq_id` has
    /// gathered off its tick counter, returning how many.
    pub fn sequence_ticks(&mut self, seq_id: usize) -> (r: u32)
        requires
            old(self).wf(),
            seq_id < SEQUENCE_COUNT,
        ensures
            final(self).wf(),
            r == old(self).sequences@[seq_id as int].tick_counter / 240,
            final(self).sequences@ == old(self).sequences@.update(
                seq_id as int,
                (Sequence { tick_counter: (old(self).sequences@[seq_id as int].tick_counter % 240) as u16, ..old(self).sequences@[seq_id as int] }),
            ),
            final(self).same_scalars(old(self)),
            final(self).channels == old(self).channels && final(self).tracks == old(self).tracks,
            final(self).alarms == old(self).alarms,
    {
        let mut q = self.sequences[seq_id];
        let ghost t0 = q.tick_counter;
        let mut cnt: u32 = 0;
        while q.tick_counter >= 240
            invariant
                q == (Sequence { tick_counter: q.tick_counter, ..old(self).sequences@[seq_id as int] }),
                t0 == old(self).sequences@[seq_id as int].tick_counter,
                q.tick_counter + 240 * cnt == t0,
            decreases q.tick_counter,
        {
            q.tick_counter = q.tick_counter - 240;
            cnt = cnt + 1;
        }
        proof {
            assert(cnt == t0 / 240 && q.tick_counter == t0 % 240) by (nonlinear_arith)
                requires
                    q.tick_counter + 240 * cnt == t0,
                    q.tick_counter < 240,
            ;
        }
        let ghost mid = *self;
        self.sequences[seq_id] = q;
        proof {
            mid.lemma_wf_keeps_links(self);
        }
        cnt
    }

    /// Gathers the units of sequence `seq_id`'s tempo for the next ticks: its
    /// tempo times its rate, over 256.
    pub fn advance_tempo(&mut self, seq_id: usize)
        requires
            old(self).wf(),
            seq_id < SEQUENCE_COUNT,
            old(self).sequences@[seq_id as int].tempo * old(self).sequences@[seq_id as int].seq_unk1a <= i32::MAX,
            old(self).sequences@[seq_id as int].tick_counter + ((old(self).sequences@[seq_id as int].tempo
                * old(self).sequences@[seq_id as int].seq_unk1a / 256) as u16) <= u16::MAX,
        ensures
            final(self).wf(),
            final(self).sequences@ == old(self).sequences@.update(
                seq_id as int,
                (Sequence {
                    tick_counter: (old(self).sequences@[seq_id as int].tick_counter + ((old(self).sequences@[seq_id as int].tempo
                        * old(self).sequences@[seq_id as int].seq_unk1a / 256) as u16)) as u16,
                    ..old(self).sequences@[seq_id as int]
                }),
            ),
            final(self).same_scalars(old(self)),
            final(self).channels == old(self).channels && final(self).tracks == old(self).tracks,
            final(self).alarms == old(self).alarms,
    {
        let mut q = self.sequences[seq_id];
        let product: u32 = q.tempo as u32 * q.seq_unk1a as u32;
        let tempo_inc = product >> 8u32;
        proof {
            vstd::bits::lemma_u32_shr_is_div(product, 8);
            vstd::arithmetic::power2::lemma2_to64();
        }
        q.tick_counter = q.tick_counter + tempo_inc as u16;
        let ghost mid = *self;
        self.sequences[seq_id] = q;
        proof {
            mid.lemma_wf_keeps_links(self);
        }
    }

    /// The mask of the sequences that play, as the driver reports it to the
    /// game: bit `i` for sequence `i`.
    pub fn active_sequence_mask(&self) -> (r: u32)
        ensures
            r == active_mask(self.sequences@, SEQUENCE_COUNT as int),
    {
        let mut mask: u32 = 0;
        let mut i: usize = 0;
        while i < SEQUENCE_COUNT
            invariant
                i <= SEQUENCE_COUNT,
                mask == active_mask(self.sequences@, i as int),
            decreases SEQUENCE_COUNT - i,
        {
            if self.sequences[i].status_flags & 1 != 0 {
                mask = mask | (1u32 << i as u32);
            }
            i = i + 1;
        }
        mask
    }
}

/// The channels an instrument of kind `kind` may play on, within the
/// track's channel mask: any for waves, 8 to 13 for PSG, 14 and 15 for noise.
pub open spec fn instrument_chanmask(kind: u8, track_mask: u16) -> Option<u16> {
    if kind == 1 || kind == 4 {
        Some(0xFFFFu16 & track_mask)
    } else if kind == 2 {
        Some(0x3F00u16 & track_mask)
    } else if kind == 3 {
        Some(0xC000u16 & track_mask)
    } else {
        None
    }
}

/// The channels an instrument of kind `kind` may play on.
pub fn instrument_channels(kind: u8, track_mask: u16) -> (r: Option<u16>)
    ensures
        r == instrument_chanmask(kind, track_mask),
{
    if kind == 1 || kind == 4 {
        Some(0xFFFFu16 & track_mask)
    } else if kind == 2 {
        Some(0x3F00u16 & track_mask)
    } else if kind == 3 {
        Some(0xC000u16 & track_mask)
    } else {
        None
    }
}

/// The pitch sweep a keyed-on note starts with on track `t`: the track's
/// sweep, plus the portamento from its previous note when flag 5 is set.
pub open spec fn key_on_sweep(t: Track, tune: u8) -> int {
    if t.status_flags & 0x20 != 0 {
        t.sweep_pitch + (t.track_unk14 - tune) * 64
    } else {
        t.sweep_pitch as int
    }
}

/// Channel `c` after a note of track `t` at pitch `tune` for `len` ticks is
/// keyed on it: the track's envelope rates where set (not 0xFF), the sweep,
/// and its length (the note's, or the portamento time's squared times the
/// sweep's size over 2048).
pub open spec fn keyed_channel(c: Channel, t: Track, tune: u8, len: i32) -> Channel {
    let target = key_on_sweep(t, tune);
    let mag = if target < 0 { -target } else { target };
    Channel {
        attack_rate: if t.attack_rate != 0xFF { spec_attack_rate(t.attack_rate) } else { c.attack_rate },
        decay_rate: if t.decay_rate != 0xFF { spec_calc_rate(t.decay_rate as int) as u16 } else { c.decay_rate },
        sustain_rate: if t.sustain_rate != 0xFF { t.sustain_rate } else { c.sustain_rate },
        release_rate: if t.release_rate != 0xFF { spec_calc_rate(t.release_rate as int) as u16 } else { c.release_rate },
        freq_ramp_target: target as i16,
        freq_ramp_len: if t.portamento_time == 0 {
            len
        } else {
            (t.portamento_time * t.portamento_time * mag / 2048) as i32
        },
        status_flags: if t.portamento_time == 0 { c.status_flags & !4u8 } else { c.status_flags },
        freq_ramp_pos: 0,
        ..c
    }
}

impl SoundNitro {
    /// Sets channel `chan_id` up for a note of track `track_id` at pitch
    /// `tune` for `len` ticks, once the channel is chosen: the track's
    /// envelope, its pitch sweep and portamento.
    pub fn key_on_channel(&mut self, track_id: usize, chan_id: usize, tune: u8, len: i32)
        requires
            old(self).wf(),
            track_id < TRACK_COUNT,
            chan_id < CHANNEL_COUNT,
            i16::MIN <= key_on_sweep(old(self).tracks@[track_id as int], tune) <= i16::MAX,
        ensures
            final(self).wf(),
            final(self).same_but_channels(old(self)),
            final(self).channels@ == old(self).channels@.update(
                chan_id as int,
                keyed_channel(old(self).channels@[chan_id as int], old(self).tracks@[track_id as int], tune, len),
            ),
    {
        let t = self.tracks[track_id];
        if t.attack_rate != 0xFF {
            self.set_channel_attack_rate(chan_id, t.attack_rate);
        }
        if t.decay_rate != 0xFF {
            self.set_channel_decay_rate(chan_id, t.decay_rate as i32);
        }
        if t.sustain_rate != 0xFF {
            self.set_channel_sustain_rate(chan_id, t.sustain_rate);
        }
        if t.release_rate != 0xFF {
            self.set_channel_release_rate(chan_id, t.release_rate as i32);
        }
        let mut c = self.channels[chan_id];
        c.freq_ramp_target = t.sweep_pitch;
        if t.status_flags & 0x20 != 0 {
            c.freq_ramp_target = c.freq_ramp_target + ((t.track_unk14 as i32 - tune as i32) * 64) as i16;
        }
        if t.portamento_time == 0 {
            c.freq_ramp_len = len;
            c.status_flags = c.status_flags & !4u8;
        } else {
            let mut time: i32 = t.portamento_time as i32;
            assert(0 <= time * time <= 255 * 255) by (nonlinear_arith)
                requires
                    0 <= time <= 255,
            ;
            time = time * time;
            let mut target: i32 = c.freq_ramp_target as i32;
            if target < 0 {
                target = -target;
            }
            assert(0 <= time * target <= 255 * 255 * 32768) by (nonlinear_arith)
                requires
                    0 <= time <= 255 * 255,
                    0 <= target <= 32768,
            ;
            time = time * target;
            c.freq_ramp_len = time / 2048;
        }
        c.freq_ramp_pos = 0;
        let ghost mid = *self;
        self.channels[chan_id] = c;
        proof {
            mid.lemma_wf_same_links(self);
        }
    }
}

/// The parameter of a note-stream instruction as its bytes give it: a
/// value, a random pick between two bounds, or a driver variable.
#[derive(Clone, Copy, Debug, PartialEq, Eq, Structural)]
pub enum NoteOperand {
    Value(u32),
    Random { lo: i16, hi: i16 },
    Var { idx: u8 },
}

/// A note-stream instruction as its bytes give it: the opcode, whether its
/// condition prefix lets it run, its parameter, its operand byte, the
/// velocity of a note, and how many bytes it takes.
#[derive(Clone, Copy, Debug, PartialEq, Eq, Structural)]
pub struct NoteInstr {
    pub op: u8,
    pub cond: bool,
    pub operand: NoteOperand,
    pub extra: u8,
    pub speed: u8,
    pub len: usize,
}

/// The variable-length number at `pos` of `code`, seven bits a byte, the
/// high bit marking that more follow, accumulated on `acc`: the value and
/// where it ends, or `None` where `code` ends first.
pub open spec fn varlen_from(code: Seq<u8>, pos: int, acc: u32) -> Option<(u32, int)>
    decreases code.len() - pos,
{
    if pos < 0 || pos >= code.len() {
        None
    } else {
        let v = ((acc as int * 128) % 0x1_0000_0000 + (code[pos] % 128)) as u32;
        if code[pos] < 0x80 {
            Some((v, pos + 1))
        } else {
            varlen_from(code, pos + 1, v)
        }
    }
}

/// The parameter of kind `ty` at `pos`: a byte (0), a little-endian
/// halfword (1), a variable-length number (2), two halfword bounds of a random
/// pick (3) or a variable index byte (4); and where it ends.
pub open spec fn operand_at(code: Seq<u8>, pos: int, ty: int) -> Option<(NoteOperand, int)> {
    if ty == 0 {
        if pos < code.len() { Some((NoteOperand::Value(code[pos] as u32), pos + 1)) } else { None }
    } else if ty == 1 {
        if pos + 2 <= code.len() { Some((NoteOperand::Value((code[pos] + code[pos + 1] * 256) as u32), pos + 2)) } else { None }
    } else if ty == 2 {
        match varlen_from(code, pos, 0) {
            Some((v, e)) => Some((NoteOperand::Value(v), e)),
            None => None,
        }
    } else if ty == 3 {
        if pos + 4 <= code.len() {
            Some((
                NoteOperand::Random {
                    lo: (code[pos] + code[pos + 1] * 256) as u16 as i16,
                    hi: (code[pos + 2] + code[pos + 3] * 256) as u16 as i16,
                },
                pos + 4,
            ))
        } else {
            None
        }
    } else {
        if pos < code.len() { Some((NoteOperand::Var { idx: code[pos] }, pos + 1)) } else { None }
    }
}

/// The little-endian 24-bit offset at `pos`.
pub open spec fn offset24(code: Seq<u8>, pos: int) -> u32 {
    (code[pos] + code[pos + 1] * 256 + code[pos + 2] * 0x1_0000) as u32
}

/// The instruction at the start of `code`, `cond_flag` being the track's
/// condition flag; `None` where `code` ends inside it.
pub open spec fn decode_note(code: Seq<u8>, cond_flag: bool) -> Option<NoteInstr> {
    if code.len() == 0 {
        None
    } else {
        let (op, p, cond, ty) = note_head(code, cond_flag);
        if p > code.len() {
            None
        } else {
            decode_body(code, op, p, cond, ty)
        }
    }
}

/// The prefixes of the instruction at the start of a non-empty `code`: its
/// opcode, where its operands start, whether it runs, and its parameter kind.
pub open spec fn note_head(code: Seq<u8>, cond_flag: bool) -> (u8, int, bool, int) {
    let (op1, p1, cond) = if code[0] == 0xA2 { (if code.len() > 1 { code[1] } else { 0 }, 2int, cond_flag) } else { (code[0], 1int, true) };
    let (op2, p2, ty2) = if op1 == 0xA0 { (if code.len() > p1 { code[p1] } else { 0 }, p1 + 1, 3int) } else { (op1, p1, 2int) };
    if op2 == 0xA1 { (if code.len() > p2 { code[p2] } else { 0 }, p2 + 1, cond, 4int) } else { (op2, p2, cond, ty2) }
}

/// The instruction with opcode `op` whose operands start at `p`.
pub open spec fn decode_body(code: Seq<u8>, op: u8, p: int, cond: bool, ty: int) -> Option<NoteInstr> {
    {
        if op < 0x80 {
            if p >= code.len() {
                None
            } else {
                match operand_at(code, p + 1, ty) {
                    Some((o, e)) => Some(NoteInstr { op, cond, operand: o, extra: 0, speed: code[p], len: e as usize }),
                    None => None,
                }
            }
        } else if op / 16 == 0x8 {
            match operand_at(code, p, ty) {
                Some((o, e)) => Some(NoteInstr { op, cond, operand: o, extra: 0, speed: 0, len: e as usize }),
                None => None,
            }
        } else if op == 0x93 {
            if p + 4 <= code.len() {
                Some(NoteInstr { op, cond, operand: NoteOperand::Value(offset24(code, p + 1)), extra: code[p], speed: 0, len: (p + 4) as usize })
            } else {
                None
            }
        } else if op == 0x94 || op == 0x95 {
            if p + 3 <= code.len() {
                Some(NoteInstr { op, cond, operand: NoteOperand::Value(offset24(code, p)), extra: 0, speed: 0, len: (p + 3) as usize })
            } else {
                None
            }
        } else if op / 16 == 0xB {
            if p >= code.len() {
                None
            } else {
                match operand_at(code, p + 1, if ty == 2 { 1 } else { ty }) {
                    Some((o, e)) => Some(NoteInstr { op, cond, operand: o, extra: code[p], speed: 0, len: e as usize }),
                    None => None,
                }
            }
        } else if op / 16 == 0xC || op / 16 == 0xD {
            match operand_at(code, p, if ty == 2 { 0 } else { ty }) {
                Some((o, e)) => Some(NoteInstr { op, cond, operand: o, extra: 0, speed: 0, len: e as usize }),
                None => None,
            }
        } else if op / 16 == 0xE {
            match operand_at(code, p, if ty == 2 { 1 } else { ty }) {
                Some((o, e)) => Some(NoteInstr { op, cond, operand: o, extra: 0, speed: 0, len: e as usize }),
                None => None,
            }
        } else {
            Some(NoteInstr { op, cond, operand: NoteOperand::Value(0), extra: 0, speed: 0, len: p as usize })
        }
    }
}

proof fn lemma_varlen_end(code: Seq<u8>, pos: int, acc: u32)
    ensures
        match varlen_from(code, pos, acc) {
            Some((v, e)) => pos < e <= code.len(),
            None => true,
        },
    decreases code.len() - pos,
{
    if 0 <= pos < code.len() && code[pos] >= 0x80 {
        let v = ((acc as int * 128) % 0x1_0000_0000 + (code[pos] % 128)) as u32;
        lemma_varlen_end(code, pos + 1, v);
    }
}

fn read_varlen(code: &[u8], pos: usize) -> (r: Option<(u32, usize)>)
    ensures
        match varlen_from(code@, pos as int, 0) {
            Some((v, e)) => r == Some((v, e as usize)) && pos < e <= code@.len(),
            None => r is None,
        },
{
    let mut val: u32 = 0;
    let mut i = pos;
    proof {
        lemma_varlen_end(code@, pos as int, 0);
    }
    while i < code.len()
        invariant
            pos <= i,
            varlen_from(code@, pos as int, 0) == varlen_from(code@, i as int, val),
        decreases code.len() - i,
    {
        let b = code[i];
        let v = ((val as u64 * 128) % 0x1_0000_0000) as u32 + (b % 128) as u32;
        if b < 0x80 {
            return Some((v, i + 1));
        }
        val = v;
        i = i + 1;
    }
    None
}

fn read_operand(code: &[u8], pos: usize, ty: u8) -> (r: Option<(NoteOperand, usize)>)
    requires
        ty <= 4,
        pos <= code@.len(),
    ensures
        match operand_at(code@, pos as int, ty as int) {
            Some((o, e)) => r == Some((o, e as usize)) && pos < e <= code@.len(),
            None => r is None,
        },
{
    let n = code.len();
    if ty == 0 {
        if pos < n { Some((NoteOperand::Value(code[pos] as u32), pos + 1)) } else { None }
    } else if ty == 1 {
        if n >= 2 && pos <= n - 2 {
            Some((NoteOperand::Value(code[pos] as u32 + code[pos + 1] as u32 * 256), pos + 2))
        } else {
            None
        }
    } else if ty == 2 {
        match read_varlen(code, pos) {
            Some((v, e)) => Some((NoteOperand::Value(v), e)),
            None => None,
        }
    } else if ty == 3 {
        if n >= 4 && pos <= n - 4 {
            let lo = (code[pos] as u16 + code[pos + 1] as u16 * 256) as i16;
            let hi = (code[pos + 2] as u16 + code[pos + 3] as u16 * 256) as i16;
            Some((NoteOperand::Random { lo, hi }, pos + 4))
        } else {
            None
        }
    } else {
        if pos < n { Some((NoteOperand::Var { idx: code[pos] }, pos + 1)) } else { None }
    }
}

/// Decodes the instruction at the start of `code`, the note bytes at the
/// track's position, `cond_flag` being the track's condition flag (flag 6):
/// the 0xA2 prefix makes it conditional, 0xA0 takes its parameter as a random
/// pick and 0xA1 from a variable. `None` where `code` ends inside it.
pub fn decode_note_op(code: &[u8], cond_flag: bool) -> (r: Option<NoteInstr>)
    ensures
        r == decode_note(code@, cond_flag),
        match r {
            Some(i) => i.len <= code@.len(),
            None => true,
        },
{
    let n = code.len();
    if n == 0 {
        return None;
    }
    let mut op = code[0];
    let mut p: usize = 1;
    let mut cond = true;
    if op == 0xA2 {
        op = if n > 1 { code[1] } else { 0 };
        p = 2;
        cond = cond_flag;
    }
    let mut ty: u8 = 2;
    if op == 0xA0 {
        op = if n > p { code[p] } else { 0 };
        p = p + 1;
        ty = 3;
    }
    if op == 0xA1 {
        op = if n > p { code[p] } else { 0 };
        p = p + 1;
        ty = 4;
    }
    assert((op, p as int, cond, ty as int) == note_head(code@, cond_flag));
    if p > n {
        return None;
    }
    decode_note_body(code, op, p, cond, ty)
}

fn decode_note_body(code: &[u8], op: u8, p: usize, cond: bool, ty: u8) -> (r: Option<NoteInstr>)
    requires
        p <= code@.len(),
        2 <= ty <= 4,
    ensures
        r == decode_body(code@, op, p as int, cond, ty as int),
        match r {
            Some(i) => i.len <= code@.len(),
            None => true,
        },
{
    let n = code.len();
    if op < 0x80 {
        if p >= n {
            return None;
        }
        match read_operand(code, p + 1, ty) {
            Some((o, e)) => Some(NoteInstr { op, cond, operand: o, extra: 0, speed: code[p], len: e }),
            None => None,
        }
    } else if op / 16 == 0x8 {
        match read_operand(code, p, ty) {
            Some((o, e)) => Some(NoteInstr { op, cond, operand: o, extra: 0, speed: 0, len: e }),
            None => None,
        }
    } else if op == 0x93 {
        if n >= 4 && p <= n - 4 {
            let v = code[p + 1] as u32 + code[p + 2] as u32 * 256 + code[p + 3] as u32 * 0x1_0000;
            Some(NoteInstr { op, cond, operand: NoteOperand::Value(v), extra: code[p], speed: 0, len: p + 4 })
        } else {
            None
        }
    } else if op == 0x94 || op == 0x95 {
        if n >= 3 && p <= n - 3 {
            let v = code[p] as u32 + code[p + 1] as u32 * 256 + code[p + 2] as u32 * 0x1_0000;
            Some(NoteInstr { op, cond, operand: NoteOperand::Value(v), extra: 0, speed: 0, len: p + 3 })
        } else {
            None
        }
    } else if op / 16 == 0xB {
        if p >= n {
            return None;
        }
        match read_operand(code, p + 1, if ty == 2 { 1 } else { ty }) {
            Some((o, e)) => Some(NoteInstr { op, cond, operand: o, extra: code[p], speed: 0, len: e }),
            None => None,
        }
    } else if op / 16 == 0xC || op / 16 == 0xD {
        match read_operand(code, p, if ty == 2 { 0 } else { ty }) {
            Some((o, e)) => Some(NoteInstr { op, cond, operand: o, extra: 0, speed: 0, len: e }),
            None => None,
        }
    } else if op / 16 == 0xE {
        match read_operand(code, p, if ty == 2 { 1 } else { ty }) {
            Some((o, e)) => Some(NoteInstr { op, cond, operand: o, extra: 0, speed: 0, len: e }),
            None => None,
        }
    } else {
        Some(NoteInstr { op, cond, operand: NoteOperand::Value(0), extra: 0, speed: 0, len: p })
    }
}

/// The parameter a variable holding `val` gives: its halfword sign-extended.
pub fn var_param(val: u16) -> (r: u32)
    ensures
        r == ((val as i16) as i32) as u32,
{
    ((val as i16) as i32) as u32
}

/// The random parameter between `lo` and `hi` for random number `cnt`:
/// `lo` plus the span times `cnt` over 65536 (the product wrapping, the
/// quotient rounded down).
pub open spec fn random_param(lo: i16, hi: i16, cnt: u16) -> u32 {
    let prod = ((hi - lo + 1) as i32).wrapping_mul(cnt as i32);
    (lo + (prod >> 16i32)) as i32 as u32
}

impl SoundNitro {
    /// Picks the random parameter of an instruction between `lo` and `hi`,
    /// stepping the driver's random counter.
    pub fn random_note_param(&mut self, lo: i16, hi: i16) -> (r: u32)
        ensures
            final(self).counter == next_counter(old(self).counter),
            final(self).same_but_counter(old(self)),
            r == random_param(lo, hi, (next_counter(old(self).counter) / 0x10000) as u16),
    {
        let cnt = self.update_counter();
        let span: i32 = hi as i32 - lo as i32 + 1;
        let prod = span.wrapping_mul(cnt as i32);
        let shifted: i32 = prod >> 16i32;
        let res: i64 = lo as i64 + shifted as i64;
        (res as i32) as u32
    }
}

/// The instruction `instr`, read at `addr`, with its parameter resolved to
/// `arg`, ready to run.
pub fn note_op_of(instr: NoteInstr, arg: u32, addr: u32) -> (r: NoteOp)
    requires
        addr + instr.len <= u32::MAX,
    ensures
        r == (NoteOp {
            op: instr.op,
            cond: instr.cond,
            arg,
            extra: instr.extra,
            speed: instr.speed,
            next_addr: (addr + instr.len) as u32,
        }),
{
    NoteOp { op: instr.op, cond: instr.cond, arg, extra: instr.extra, speed: instr.speed, next_addr: addr + instr.len as u32 }
}

/// What each track parameter instruction that runs does to its track: it
/// moves on to the next instruction and sets exactly one parameter, taken
/// from the low byte of its argument (0xE0 and 0xE3 from the low halfword);
/// instructions that set sequence parameters leave the track as it was.
pub proof fn law_track_parameter_instructions(t: Track, op: NoteOp)
    requires
        op.cond,
    ensures
        ({
            let r = track_op(t, op);
            let a = op.next_addr;
            let p = op.arg as u8;
            &&& op.op == 0xC0 ==> r == (Track { pan: (p as i8).wrapping_sub(64), cur_note_addr: a, ..t })
            &&& op.op == 0xC1 ==> r == (Track { volume: p as usize, cur_note_addr: a, ..t })
            &&& op.op == 0xC2 ==> r == (Track { cur_note_addr: a, ..t })
            &&& op.op == 0xC3 ==> r == (Track { transpose: p as i8, cur_note_addr: a, ..t })
            &&& op.op == 0xC4 ==> r == (Track { pitch_bend: p as i8, cur_note_addr: a, ..t })
            &&& op.op == 0xC5 ==> r == (Track { pitch_bend_range: p, cur_note_addr: a, ..t })
            &&& op.op == 0xC6 ==> r == (Track { priority: p, cur_note_addr: a, ..t })
            &&& op.op == 0xCA ==> r == (Track { modulation_depth: p, cur_note_addr: a, ..t })
            &&& op.op == 0xCB ==> r == (Track { modulation_speed: p, cur_note_addr: a, ..t })
            &&& op.op == 0xCC ==> r == (Track { modulation_type: p, cur_note_addr: a, ..t })
            &&& op.op == 0xCD ==> r == (Track { modulation_range: p, cur_note_addr: a, ..t })
            &&& op.op == 0xCF ==> r == (Track { portamento_time: p, cur_note_addr: a, ..t })
            &&& op.op == 0xD0 ==> r == (Track { attack_rate: p, cur_note_addr: a, ..t })
            &&& op.op == 0xD1 ==> r == (Track { decay_rate: p, cur_note_addr: a, ..t })
            &&& op.op == 0xD2 ==> r == (Track { sustain_rate: p, cur_note_addr: a, ..t })
            &&& op.op == 0xD3 ==> r == (Track { release_rate: p, cur_note_addr: a, ..t })
            &&& op.op == 0xD5 ==> r == (Track { expression: p as usize, cur_note_addr: a, ..t })
            &&& op.op == 0xE0 ==> r == (Track { modulation_delay: (op.arg as i16) as u16, cur_note_addr: a, ..t })
            &&& op.op == 0xE1 ==> r == (Track { cur_note_addr: a, ..t })
            &&& op.op == 0xE3 ==> r == (Track { sweep_pitch: op.arg as i16, cur_note_addr: a, ..t })
            &&& op.op == 0x80 ==> r == (Track { rest_counter: op.arg as i32, cur_note_addr: a, ..t })
            &&& op.op == 0x81 && op.arg < 0x10000 ==> r == (Track { instr_index: op.arg as u16, cur_note_addr: a, ..t })
            &&& op.op == 0x94 ==> r == (Track { cur_note_addr: (t.note_buffer + op.arg) as u32, ..t })
            &&& op.op == 0xC7 ==> r == (Track { status_flags: (t.status_flags & !2u8) | ((p & 1) << 1u8), cur_note_addr: a, ..t })
            &&& op.op == 0xC8 ==> r == (Track { status_flags: (t.status_flags & !8u8) | ((p & 1) << 3u8), cur_note_addr: a, ..t })
            &&& op.op == 0xCE ==> r == (Track { status_flags: (t.status_flags & !0x20u8) | ((p & 1) << 5u8), cur_note_addr: a, ..t })
            &&& op.op == 0xC9 ==> r == (Track { status_flags: t.status_flags | 0x20, track_unk14: (p as i8).wrapping_add(t.transpose), cur_note_addr: a, ..t })
        }),
{
}

/// A note that runs records its pitch (the key moved by the transposition,
/// kept within 0 to 127) as the track's last note; a track that waits for its
/// notes (flag 1) also rests for the note's length, holding (flag 4) when the
/// length is 0. Nothing else of the track changes but its position.
pub proof fn law_note_instruction(t: Track, op: NoteOp)
    requires
        op.cond,
        op.op < 0x80,
    ensures
        ({
            let r = track_op(t, op);
            let v = op.op as int + t.transpose as int;
            let pitch = if v < 0 { 0int } else if v > 127 { 127int } else { v };
            let len = op.arg as i32;
            &&& r.track_unk14 == pitch as i8
            &&& t.status_flags & 2 != 0 ==> r == (Track {
                track_unk14: pitch as i8,
                rest_counter: len,
                status_flags: if len == 0 { t.status_flags | 0x10 } else { t.status_flags },
                cur_note_addr: op.next_addr,
                ..t
            })
            &&& t.status_flags & 2 == 0 ==> r == (Track { track_unk14: pitch as i8, cur_note_addr: op.next_addr, ..t })
        }),
{
}

/// Calls, loops and returns: a call (0x95) jumps into the note data and
/// pushes where to come back; a loop start (0xD4) pushes where it starts and
/// its count; a loop end (0xFC) goes back while its count lasts (for ever with
/// count 0) and pops it on the last pass; a return (0xFD) pops and goes back.
/// The stack holds three entries; a push on a full one does nothing.
pub proof fn law_flow_instructions(t: Track, op: NoteOp)
    requires
        op.cond,
        t.loop_level <= 3,
    ensures
        ({
            let r = track_op(t, op);
            let (addrs, counts) = loop_step(t, op);
            let l = t.loop_level as int;
            let a = op.next_addr;
            &&& op.op == 0x95 && l < 3 ==> r == (Track {
                loop_level: (l + 1) as u8,
                cur_note_addr: (t.note_buffer + op.arg) as u32,
                ..t
            }) && addrs == t.loop_addr@.update(l, a) && counts == t.loop_count@
            &&& op.op == 0xD4 && l < 3 ==> r == (Track { loop_level: (l + 1) as u8, cur_note_addr: a, ..t })
                && addrs == t.loop_addr@.update(l, a) && counts == t.loop_count@.update(l, op.arg as u8)
            &&& (op.op == 0x95 || op.op == 0xD4) && l == 3 ==> r == (Track { cur_note_addr: a, ..t })
                && addrs == t.loop_addr@ && counts == t.loop_count@
            &&& op.op == 0xFD && l > 0 ==> r == (Track { loop_level: (l - 1) as u8, cur_note_addr: t.loop_addr@[l - 1], ..t })
                && addrs == t.loop_addr@ && counts == t.loop_count@
            &&& op.op == 0xFC && l > 0 && t.loop_count@[l - 1] == 1 ==> r == (Track { loop_level: (l - 1) as u8, cur_note_addr: a, ..t })
                && addrs == t.loop_addr@ && counts == t.loop_count@
            &&& op.op == 0xFC && l > 0 && t.loop_count@[l - 1] == 0 ==> r == (Track { cur_note_addr: t.loop_addr@[l - 1], ..t })
                && addrs == t.loop_addr@ && counts == t.loop_count@
            &&& op.op == 0xFC && l > 0 && t.loop_count@[l - 1] > 1 ==> r == (Track { cur_note_addr: t.loop_addr@[l - 1], ..t })
                && addrs == t.loop_addr@ && counts == t.loop_count@.update(l - 1, (t.loop_count@[l - 1] - 1) as u8)
            &&& (op.op == 0xFC || op.op == 0xFD) && l == 0 ==> r == (Track { cur_note_addr: a, ..t })
        }),
{
}

/// The sequence instructions: 0xC2 sets the sequence volume from the low byte,
/// 0xE1 the tempo from the low halfword; the others leave the sequence alone,
/// as does any instruction whose condition fails.
pub proof fn law_sequence_instructions(q: Sequence, op: NoteOp)
    ensures
        op.cond && op.op == 0xC2 ==> seq_op(q, op) == (Sequence { volume: (op.arg as u8) as usize, ..q }),
        op.cond && op.op == 0xE1 ==> seq_op(q, op) == (Sequence { tempo: (op.arg as i16) as u16, ..q }),
        !op.cond || (op.op != 0xC2 && op.op != 0xE1) ==> seq_op(q, op) == q,
{
}

/// An instruction whose condition fails only moves on: the track, its
/// stacks and the sequence stay as they were and nothing is asked.
pub proof fn law_failed_condition_skips(track_id: usize, t: Track, q: Sequence, shared: u32, counter: u32, process: bool, op: NoteOp)
    requires
        !op.cond,
    ensures
        track_op(t, op) == (Track { cur_note_addr: op.next_addr, ..t }),
        loop_step(t, op) == (t.loop_addr@, t.loop_count@),
        seq_op(q, op) == q,
        track_action(track_id, t, q, shared, counter, process, op) == TrackAction::Done,
{
}

/// What a running instruction asks of the caller: a note of a playing,
/// unmuted track keys on at its pitch, velocity and length (endless for no
/// length) and reports the track's previous note; 0xC8 stops the track
/// itself, 0x93 the track of the sequence it names (not itself); 0xFF ends the
/// track; with a variable block, 0xB0 stores the halfword argument, 0xB1 to
/// 0xB5 update and 0xB8 to 0xBD compare the variable it names, each at the
/// address of that variable (globals from 0x10 at 0x260, the sequence's own in
/// its 0x24-byte slot from 0x20).
pub proof fn law_track_actions(track_id: usize, t: Track, q: Sequence, shared: u32, counter: u32, process: bool, op: NoteOp)
    requires
        op.cond,
    ensures
        ({
            let r = track_action(track_id, t, q, shared, counter, process, op);
            let v = op.op as int + t.transpose as int;
            let pitch = if v < 0 { 0int } else if v > 127 { 127int } else { v };
            let len = op.arg as i32;
            let x = op.extra as int;
            let addr = if x >= 0x10 { shared + 0x260 + (x - 0x10) * 2 } else { shared + 0x20 + q.id * 0x24 + x * 2 };
            &&& op.op < 0x80 && t.status_flags & 4 == 0 && process ==> r == TrackAction::KeyOn {
                tune: pitch as u8,
                speed: op.speed,
                len: if len <= 0 { -1i32 } else { len },
                prev_note: t.track_unk14,
            }
            &&& op.op < 0x80 && !(t.status_flags & 4 == 0 && process) ==> r == TrackAction::Done
            &&& op.op == 0xC8 ==> r == TrackAction::StopTrack { track_id }
            &&& op.op == 0xFF ==> r == TrackAction::End
            &&& op.op == 0x93 && op.extra <= 15 && q.tracks@[x] != NO_TRACK && q.tracks@[x] != track_id ==> r
                == TrackAction::StopTrack { track_id: q.tracks@[x] }
            &&& op.op == 0x93 && (op.extra > 15 || q.tracks@[x] == NO_TRACK || q.tracks@[x] == track_id) ==> r == TrackAction::Done
            &&& 0xB0 <= op.op <= 0xBF && shared == 0 ==> r == TrackAction::Done
            &&& op.op == 0xB0 && shared != 0 ==> r == TrackAction::VarWrite { addr: addr as u32, value: (op.arg as i16) as u16 }
            &&& 0xB1 <= op.op <= 0xB5 && shared != 0 ==> r == TrackAction::VarUpdate {
                op: op.op,
                addr: addr as u32,
                param: op.arg as i16,
            }
            &&& 0xB8 <= op.op <= 0xBD && shared != 0 ==> r == TrackAction::VarTest {
                op: op.op,
                addr: addr as u32,
                param: op.arg as i16,
            }
        }),
{
}

/// The variable tests: 0xB8 equal, 0xB9 at least, 0xBA greater, 0xBB at
/// most, 0xBC less, 0xBD different (variable against argument).
pub proof fn law_variable_tests(v: i16, p: i16)
    ensures
        var_test(0xB8, v, p) == (v == p),
        var_test(0xB9, v, p) == (v >= p),
        var_test(0xBA, v, p) == (v > p),
        var_test(0xBB, v, p) == (v <= p),
        var_test(0xBC, v, p) == (v < p),
        var_test(0xBD, v, p) == (v != p),
{
}

/// The variable updates, as halfwords: 0xB1 adds and 0xB2 subtracts
/// (wrapping), 0xB3 multiplies (wrapping); 0xB4 divides rounding toward
/// zero (and leaves the lowest value as it is when divided by -1); 0xB5 shifts left for
/// non-negative and right (keeping the sign) for negative amounts.
pub proof fn law_variable_updates(v: i16, p: i16)
    ensures
        var_update(0xB1, v, p) == v.wrapping_add(p) as u16,
        var_update(0xB2, v, p) == v.wrapping_sub(p) as u16,
        var_update(0xB3, v, p) == v.wrapping_mul(p) as u16,
        p != 0 && !(v == i16::MIN && p == -1) ==> var_update(0xB4, v, p) == trunc_div(v as int, p as int) as u16,
        v == i16::MIN && p == -1 ==> var_update(0xB4, v, p) == v as u16,
        0 <= p < 16 ==> var_update(0xB5, v, p) == ((v as u16) << (p as u16)) as u16,
        -16 < p < 0 ==> var_update(0xB5, v, p) == (v >> ((-p) as i16)) as u16,
        p >= 16 ==> var_update(0xB5, v, p) == 0,
        p <= -16 ==> var_update(0xB5, v, p) == (if v < 0 { 0xFFFFu16 } else { 0u16 }),
{
}

/// How instruction bytes read: a note is its key, its velocity byte and a
/// variable-length length (seven bits a byte, most significant first, the
/// high bit marking that another byte follows); byte-parameter instructions
/// (0xC0 to 0xDF) take the next byte, halfword ones (0xE0 to 0xEF) the next
/// two little-endian, jumps and calls a 24-bit little-endian offset; the 0xA2
/// prefix makes the instruction depend on the track's condition flag.
pub proof fn law_note_bytes(code: Seq<u8>, flag: bool)
    requires
        code.len() >= 4,
    ensures
        code[0] < 0x80 && code[2] < 0x80 ==> decode_note(code, flag) == Some(
            NoteInstr { op: code[0], cond: true, operand: NoteOperand::Value(code[2] as u32), extra: 0, speed: code[1], len: 3 },
        ),
        code[0] < 0x80 && code[2] >= 0x80 && code[3] < 0x80 ==> decode_note(code, flag) == Some(
            NoteInstr {
                op: code[0],
                cond: true,
                operand: NoteOperand::Value(((code[2] - 0x80) * 128 + code[3]) as u32),
                extra: 0,
                speed: code[1],
                len: 4,
            },
        ),
        0xC0 <= code[0] < 0xE0 ==> decode_note(code, flag) == Some(
            NoteInstr { op: code[0], cond: true, operand: NoteOperand::Value(code[1] as u32), extra: 0, speed: 0, len: 2 },
        ),
        0xE0 <= code[0] < 0xF0 ==> decode_note(code, flag) == Some(
            NoteInstr { op: code[0], cond: true, operand: NoteOperand::Value((code[1] + 256 * code[2]) as u32), extra: 0, speed: 0, len: 3 },
        ),
        code[0] == 0x94 ==> decode_note(code, flag) == Some(
            NoteInstr {
                op: 0x94,
                cond: true,
                operand: NoteOperand::Value((code[1] + 256 * code[2] + 65536 * code[3]) as u32),
                extra: 0,
                speed: 0,
                len: 4,
            },
        ),
        code[0] == 0xA2 && 0xC0 <= code[1] < 0xE0 ==> decode_note(code, flag) == Some(
            NoteInstr { op: code[1], cond: flag, operand: NoteOperand::Value(code[2] as u32), extra: 0, speed: 0, len: 3 },
        ),
{
    if code[0] < 0x80 && code[2] >= 0x80 && code[3] < 0x80 {
        assert(varlen_from(code, 3, (code[2] % 128) as u32) == Some((((code[2] - 0x80) * 128 + code[3]) as u32, 4int)));
    }
}

} // verus!
