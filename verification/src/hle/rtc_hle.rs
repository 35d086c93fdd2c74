use vstd::prelude::*;

verus! {

/// The emulated ARM7 real time clock driver; it keeps no state.
pub struct RtcHle;

/// What the clock driver does with a request.
#[derive(Clone, Copy, Debug, PartialEq, Eq, Structural)]
pub enum RtcAction {
    Nothing,
    /// Replies with this word.
    Reply(u32),
    /// Writes date and time bytes `from` up to `to` to the shared area, then
    /// replies with the word.
    ReadDateTime { from: u8, to: u8, reply: u32 },
}

/// The command of a request (bits 8 to 14).
pub open spec fn rtc_command(data: u32) -> u32 {
    (data >> 8u32) & 0x7F
}

/// Commands that the driver refuses.
pub open spec fn rtc_refused(cmd: u32) -> bool {
    (2 <= cmd <= 15) || (26 <= cmd <= 34) || cmd >= 42
}

impl RtcHle {
    /// The driver.
    pub fn new() -> (r: Self) {
        RtcHle
    }

    /// What a request does: refused commands are answered with an error,
    /// 0x10 to 0x12 read date and time, date, or time.
    pub fn ipc_recv(&self, data: u32) -> (r: RtcAction)
        ensures
            ({
                let cmd = rtc_command(data);
                r == if rtc_refused(cmd) {
                    RtcAction::Reply(0x8001 | (cmd << 8u32))
                } else if cmd == 0x10 {
                    RtcAction::ReadDateTime { from: 0, to: 7, reply: 0x9000 }
                } else if cmd == 0x11 {
                    RtcAction::ReadDateTime { from: 0, to: 4, reply: 0x9100 }
                } else if cmd == 0x12 {
                    RtcAction::ReadDateTime { from: 4, to: 7, reply: 0x9200 }
                } else {
                    RtcAction::Nothing
                }
            }),
    {
        let cmd = (data >> 8u32) & 0x7F;
        if (2 <= cmd && cmd <= 15) || (26 <= cmd && cmd <= 34) || cmd >= 42 {
            return RtcAction::Reply(0x8001 | (cmd << 8u32));
        }
        if cmd == 0x10 {
            RtcAction::ReadDateTime { from: 0, to: 7, reply: 0x9000 }
        } else if cmd == 0x11 {
            RtcAction::ReadDateTime { from: 0, to: 4, reply: 0x9100 }
        } else if cmd == 0x12 {
            RtcAction::ReadDateTime { from: 4, to: 7, reply: 0x9200 }
        } else {
            RtcAction::Nothing
        }
    }
}

} // verus!
