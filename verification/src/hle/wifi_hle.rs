use vstd::prelude::*;

verus! {

/// Channels that the emulated wireless driver reports as usable.
pub const CHAN_MASK: u16 = 0x2082;

/// The emulated ARM7 wireless driver: where its buffers lie in memory and
/// the channel being scanned.
pub struct WifiHle {
    pub msg_ptr: u32,
    pub status_ptr: u32,
    pub fifo_7_to_9_ptr: u32,
    pub scan_channel: u16,
}

impl WifiHle {
    /// The driver before the game sets it up.
    pub fn new() -> (r: Self)
        ensures
            r == (WifiHle { msg_ptr: 0, status_ptr: 0, fifo_7_to_9_ptr: 0, scan_channel: 0 }),
    {
        WifiHle { msg_ptr: 0, status_ptr: 0, fifo_7_to_9_ptr: 0, scan_channel: 0 }
    }
}

/// Where the driver's channel mask goes in main memory.
pub const CHAN_MASK_ADDR: u32 = 0x027FFCFA;

/// Cycles in a millisecond.
pub const MS_CYCLES: u32 = 34418;

/// Wireless manager requests the driver answers.
pub const WM_INITIALIZE: u16 = 0;
pub const WM_END: u16 = 2;
pub const WM_START_SCAN: u16 = 10;
pub const WM_END_SCAN: u16 = 11;

/// Request numbers below this are requests; others are only acknowledged.
pub const WM_ASYNC_KIND_MAX: u16 = 46;

/// Driver states reported in the status block.
pub const WM_STATE_READY: u16 = 0;
pub const WM_STATE_IDLE: u16 = 2;
pub const WM_STATE_SCAN: u16 = 5;

/// The scan result for no parent found.
pub const WM_SCAN_PARENT_NOT_FOUND: u16 = 4;

/// A message of the game to the driver, as read from memory at its
/// address: its request number, then the fields the requests use.
#[derive(Clone, Copy, Debug, PartialEq, Eq, Structural)]
pub struct WifiMsg {
    /// The halfword at the message (bit 15 marks it answered).
    pub cmd: u16,
    /// The halfword at offset 2: the channel of a scan.
    pub channel: u16,
    /// The words at offsets 4, 8 and 12: for initialization the driver
    /// buffer, the status block and the reply buffer.
    pub word4: u32,
    pub word8: u32,
    pub word12: u32,
    /// The halfword at offset 8: the time to scan a channel, in units of
    /// 1024 milliseconds.
    pub max_channel_time: u16,
}

/// What the caller does for a message, in this order: write the driver
/// buffer (the status block and reply buffer addresses, at offsets 0 and
/// 8), write the state and a zero busy field to the status block, write
/// the reply (the request number and a zero error) to the reply buffer and
/// send its address to the game, schedule the end of a scan, zero the word
/// after the status block, and mark the message answered.
#[derive(Clone, Copy, Debug, PartialEq, Eq, Structural)]
pub struct WifiAction {
    pub arm7_buf: Option<u32>,
    pub status: Option<u16>,
    pub reply: Option<u16>,
    pub scan_cycles: Option<u32>,
    pub clear_status_word: bool,
    pub ack: Option<u16>,
}

/// What the driver does for message `msg` in the state `w` it has before.
pub open spec fn wifi_action(w: WifiHle, msg: WifiMsg) -> WifiAction {
    let cmd = msg.cmd & 0x7FFF;
    let low = cmd % 256;
    if low >= WM_ASYNC_KIND_MAX {
        WifiAction { arm7_buf: None, status: None, reply: None, scan_cycles: None, clear_status_word: false, ack: Some(cmd | 0x8000) }
    } else if low == WM_INITIALIZE {
        WifiAction {
            arm7_buf: Some(msg.word4),
            status: Some(WM_STATE_IDLE),
            reply: Some(WM_INITIALIZE),
            scan_cycles: None,
            clear_status_word: true,
            ack: Some(cmd | 0x8000),
        }
    } else if low == WM_END {
        WifiAction { arm7_buf: None, status: Some(WM_STATE_READY), reply: Some(WM_END), scan_cycles: None, clear_status_word: true, ack: Some(cmd | 0x8000) }
    } else if low == WM_START_SCAN {
        WifiAction {
            arm7_buf: None,
            status: Some(WM_STATE_SCAN),
            reply: None,
            scan_cycles: Some((msg.max_channel_time * MS_CYCLES * 1024) as u32),
            clear_status_word: false,
            ack: None,
        }
    } else if low == WM_END_SCAN {
        WifiAction {
            arm7_buf: None,
            status: Some(WM_STATE_IDLE),
            reply: Some(WM_END_SCAN),
            scan_cycles: None,
            clear_status_word: true,
            ack: Some(cmd | 0x8000),
        }
    } else {
        WifiAction { arm7_buf: None, status: None, reply: None, scan_cycles: None, clear_status_word: true, ack: Some(cmd | 0x8000) }
    }
}

/// What the caller does when a scan ends: write the scan result (no
/// parent found, on the scanned channel, zero elsewhere) to the reply
/// buffer, then the reply to the scan request over it and send its address
/// to the game, zero the word after the status block and mark the scan
/// request answered.
#[derive(Clone, Copy, Debug, PartialEq, Eq, Structural)]
pub struct WifiScanDone {
    pub fifo_7_to_9_ptr: u32,
    pub channel: u16,
    pub scan_state: u16,
    pub status_word_addr: u32,
    pub msg_ptr: u32,
    pub ack: u16,
}

impl WifiHle {
    /// Takes the message at `data`, whose fields the caller read into
    /// `msg`: initialization records the status block and reply buffer
    /// addresses, a scan records its channel.
    pub fn ipc_recv(&mut self, data: u32, msg: WifiMsg) -> (r: WifiAction)
        requires
            (msg.cmd & 0x7FFF) % 256 == WM_START_SCAN ==> msg.max_channel_time * MS_CYCLES * 1024 <= u32::MAX,
        ensures
            r == wifi_action(*old(self), msg),
            final(self).msg_ptr == data,
            final(self).status_ptr == if (msg.cmd & 0x7FFF) % 256 == WM_INITIALIZE {
                msg.word8
            } else {
                old(self).status_ptr
            },
            final(self).fifo_7_to_9_ptr == if (msg.cmd & 0x7FFF) % 256 == WM_INITIALIZE {
                msg.word12
            } else {
                old(self).fifo_7_to_9_ptr
            },
            final(self).scan_channel == if (msg.cmd & 0x7FFF) % 256 == WM_START_SCAN {
                msg.channel
            } else {
                old(self).scan_channel
            },
    {
        self.msg_ptr = data;
        let cmd = msg.cmd & 0x7FFF;
        let low = cmd % 256;
        if low >= WM_ASYNC_KIND_MAX {
            return WifiAction { arm7_buf: None, status: None, reply: None, scan_cycles: None, clear_status_word: false, ack: Some(cmd | 0x8000) };
        }
        if low == WM_INITIALIZE {
            self.status_ptr = msg.word8;
            self.fifo_7_to_9_ptr = msg.word12;
            WifiAction {
                arm7_buf: Some(msg.word4),
                status: Some(WM_STATE_IDLE),
                reply: Some(WM_INITIALIZE),
                scan_cycles: None,
                clear_status_word: true,
                ack: Some(cmd | 0x8000),
            }
        } else if low == WM_END {
            WifiAction { arm7_buf: None, status: Some(WM_STATE_READY), reply: Some(WM_END), scan_cycles: None, clear_status_word: true, ack: Some(cmd | 0x8000) }
        } else if low == WM_START_SCAN {
            self.scan_channel = msg.channel;
            WifiAction {
                arm7_buf: None,
                status: Some(WM_STATE_SCAN),
                reply: None,
                scan_cycles: Some(msg.max_channel_time as u32 * MS_CYCLES * 1024),
                clear_status_word: false,
                ack: None,
            }
        } else if low == WM_END_SCAN {
            WifiAction {
                arm7_buf: None,
                status: Some(WM_STATE_IDLE),
                reply: Some(WM_END_SCAN),
                scan_cycles: None,
                clear_status_word: true,
                ack: Some(cmd | 0x8000),
            }
        } else {
            WifiAction { arm7_buf: None, status: None, reply: None, scan_cycles: None, clear_status_word: true, ack: Some(cmd | 0x8000) }
        }
    }

    /// What ends the current scan: no parent is ever found.
    pub fn on_scan_event(&self) -> (r: WifiScanDone)
        requires
            self.status_ptr <= u32::MAX - 4,
        ensures
            r == (WifiScanDone {
                fifo_7_to_9_ptr: self.fifo_7_to_9_ptr,
                channel: self.scan_channel,
                scan_state: WM_SCAN_PARENT_NOT_FOUND,
                status_word_addr: (self.status_ptr + 4) as u32,
                msg_ptr: self.msg_ptr,
                ack: 0x8000 | WM_START_SCAN,
            }),
    {
        WifiScanDone {
            fifo_7_to_9_ptr: self.fifo_7_to_9_ptr,
            channel: self.scan_channel,
            scan_state: WM_SCAN_PARENT_NOT_FOUND,
            status_word_addr: self.status_ptr + 4,
            msg_ptr: self.msg_ptr,
            ack: 0x8000 | WM_START_SCAN,
        }
    }
}

} // verus!
