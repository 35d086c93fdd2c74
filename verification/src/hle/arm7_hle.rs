use vstd::prelude::*;

verus! {

/// The subsystem a message between the processors is for.
#[derive(Clone, Copy, Debug, PartialEq, Eq, Structural)]
pub enum IpcFifoTag {
    Ex,
    User0,
    User1,
    System,
    Nvram,
    Rtc,
    Touchpanel,
    Sound,
    PowerManager,
    Mic,
    WirelessManager,
    Filesystem,
    Os,
    Cartridge,
    Card,
    ControlDrivingWirelessLib,
    CartridgeEx,
    Max,
}

/// The number of each tag.
pub open spec fn tag_bits(t: IpcFifoTag) -> u8 {
    match t {
        IpcFifoTag::Ex => 0,
        IpcFifoTag::User0 => 1,
        IpcFifoTag::User1 => 2,
        IpcFifoTag::System => 3,
        IpcFifoTag::Nvram => 4,
        IpcFifoTag::Rtc => 5,
        IpcFifoTag::Touchpanel => 6,
        IpcFifoTag::Sound => 7,
        IpcFifoTag::PowerManager => 8,
        IpcFifoTag::Mic => 9,
        IpcFifoTag::WirelessManager => 10,
        IpcFifoTag::Filesystem => 11,
        IpcFifoTag::Os => 12,
        IpcFifoTag::Cartridge => 13,
        IpcFifoTag::Card => 14,
        IpcFifoTag::ControlDrivingWirelessLib => 15,
        IpcFifoTag::CartridgeEx => 16,
        IpcFifoTag::Max => 32,
    }
}

impl IpcFifoTag {
    /// The number of the tag.
    pub fn bits(self) -> (r: u8)
        ensures
            r == tag_bits(self),
    {
        match self {
            IpcFifoTag::Ex => 0,
            IpcFifoTag::User0 => 1,
            IpcFifoTag::User1 => 2,
            IpcFifoTag::System => 3,
            IpcFifoTag::Nvram => 4,
            IpcFifoTag::Rtc => 5,
            IpcFifoTag::Touchpanel => 6,
            IpcFifoTag::Sound => 7,
            IpcFifoTag::PowerManager => 8,
            IpcFifoTag::Mic => 9,
            IpcFifoTag::WirelessManager => 10,
            IpcFifoTag::Filesystem => 11,
            IpcFifoTag::Os => 12,
            IpcFifoTag::Cartridge => 13,
            IpcFifoTag::Card => 14,
            IpcFifoTag::ControlDrivingWirelessLib => 15,
            IpcFifoTag::CartridgeEx => 16,
            IpcFifoTag::Max => 32,
        }
    }

    /// The tag numbered `value` (0 to 16, or 32).
    pub fn from_bits(value: u8) -> (r: IpcFifoTag)
        requires
            value <= 16 || value == 32,
        ensures
            tag_bits(r) == value,
    {
        match value {
            0 => IpcFifoTag::Ex,
            1 => IpcFifoTag::User0,
            2 => IpcFifoTag::User1,
            3 => IpcFifoTag::System,
            4 => IpcFifoTag::Nvram,
            5 => IpcFifoTag::Rtc,
            6 => IpcFifoTag::Touchpanel,
            7 => IpcFifoTag::Sound,
            8 => IpcFifoTag::PowerManager,
            9 => IpcFifoTag::Mic,
            10 => IpcFifoTag::WirelessManager,
            11 => IpcFifoTag::Filesystem,
            12 => IpcFifoTag::Os,
            13 => IpcFifoTag::Cartridge,
            14 => IpcFifoTag::Card,
            15 => IpcFifoTag::ControlDrivingWirelessLib,
            16 => IpcFifoTag::CartridgeEx,
            _ => IpcFifoTag::Max,
        }
    }
}

/// Where the emulated ARM7 sends a message from the ARM9.
#[derive(Clone, Copy, Debug, PartialEq, Eq, Structural)]
pub enum Arm7HleRequest {
    Firmware(u32),
    Rtc(u32),
    Touchscreen(u32),
    Sound(u32),
    PowerManager(u32),
    Mic(u32),
    Wifi(u32),
    Cart(u32),
    /// Answered at once with this tag and data.
    Reply { tag: IpcFifoTag, data: u32 },
    Nothing,
}

/// The tags the emulated ARM7 handles: from the firmware to the cartridge,
/// and the wireless library control.
pub open spec fn hle_handles(tag: u32) -> bool {
    (4 <= tag <= 13) || tag == 15
}

/// Where message word `val` goes: the data (bits 6 to 31) to the driver of
/// its tag (bits 0 to 4), unless the error bit (bit 5) says otherwise —
/// sound takes every message, the file system only error messages; the
/// system, cartridge and wireless library messages are answered at once.
pub open spec fn hle_route(val: u32) -> Arm7HleRequest {
    let tag = val & 0x1F;
    let err = val & 0x20 != 0;
    let data = val >> 6u32;
    if tag == 7 {
        Arm7HleRequest::Sound(data)
    } else if tag == 11 {
        if err {
            Arm7HleRequest::Cart(data)
        } else {
            Arm7HleRequest::Nothing
        }
    } else if tag == 12 {
        if data == 0x1000 {
            Arm7HleRequest::Reply { tag: IpcFifoTag::Os, data: 0x1000 }
        } else {
            Arm7HleRequest::Nothing
        }
    } else if tag == 13 {
        if data & 0x3F == 1 {
            Arm7HleRequest::Reply { tag: IpcFifoTag::Cartridge, data: 1 }
        } else {
            Arm7HleRequest::Nothing
        }
    } else if tag == 15 {
        Arm7HleRequest::Reply { tag: IpcFifoTag::ControlDrivingWirelessLib, data }
    } else if err {
        Arm7HleRequest::Nothing
    } else if tag == 4 {
        Arm7HleRequest::Firmware(data)
    } else if tag == 5 {
        Arm7HleRequest::Rtc(data)
    } else if tag == 6 {
        Arm7HleRequest::Touchscreen(data)
    } else if tag == 8 {
        Arm7HleRequest::PowerManager(data)
    } else if tag == 9 {
        Arm7HleRequest::Mic(data)
    } else {
        Arm7HleRequest::Wifi(data)
    }
}

/// Where the emulated ARM7 sends message word `val` taken from the ARM9.
pub fn arm7_hle_route(val: u32) -> (r: Arm7HleRequest)
    requires
        hle_handles(val & 0x1F),
    ensures
        r == hle_route(val),
{
    let tag = val & 0x1F;
    let err = val & 0x20 != 0;
    let data = val >> 6u32;
    if tag == 7 {
        Arm7HleRequest::Sound(data)
    } else if tag == 11 {
        if err {
            Arm7HleRequest::Cart(data)
        } else {
            Arm7HleRequest::Nothing
        }
    } else if tag == 12 {
        if data == 0x1000 {
            Arm7HleRequest::Reply { tag: IpcFifoTag::Os, data: 0x1000 }
        } else {
            Arm7HleRequest::Nothing
        }
    } else if tag == 13 {
        if data & 0x3F == 1 {
            Arm7HleRequest::Reply { tag: IpcFifoTag::Cartridge, data: 1 }
        } else {
            Arm7HleRequest::Nothing
        }
    } else if tag == 15 {
        Arm7HleRequest::Reply { tag: IpcFifoTag::ControlDrivingWirelessLib, data }
    } else if err {
        Arm7HleRequest::Nothing
    } else if tag == 4 {
        Arm7HleRequest::Firmware(data)
    } else if tag == 5 {
        Arm7HleRequest::Rtc(data)
    } else if tag == 6 {
        Arm7HleRequest::Touchscreen(data)
    } else if tag == 8 {
        Arm7HleRequest::PowerManager(data)
    } else if tag == 9 {
        Arm7HleRequest::Mic(data)
    } else {
        Arm7HleRequest::Wifi(data)
    }
}

/// The answer of the emulated ARM7 to the ARM9's sync value `data_in`:
/// below 5 the next value; at 5 the value 0, and the boot handshake word is
/// to be written (the flag); above 5 none.
pub fn arm7_hle_ipc_sync(data_in: u8) -> (r: Option<(u8, bool)>)
    ensures
        r == if data_in < 5 {
            Some(((data_in + 1) as u8, false))
        } else if data_in == 5 {
            Some((0u8, true))
        } else {
            None::<(u8, bool)>
        },
{
    if data_in < 5 {
        Some((data_in + 1, false))
    } else if data_in == 5 {
        Some((0, true))
    } else {
        None
    }
}

/// What the emulated ARM7 writes once a frame: the X, Y, debug and hinge
/// keys (bits 0, 1, 3 of the extended keys) at bits 10, 11 and 13 of a half
/// word, and the frame counter plus one, wrapping.
pub fn arm7_hle_frame_words(ext_key_in: u16, frame_counter: u32) -> (r: (u16, u32))
    ensures
        r.0 == ((ext_key_in << 10u16) & 0x2C00),
        r.1 == frame_counter.wrapping_add(1),
{
    ((ext_key_in << 10u16) & 0x2C00, frame_counter.wrapping_add(1))
}

} // verus!
