use vstd::prelude::*;
use std::sync::Arc;
use std::sync::atomic::{AtomicU32, Ordering};

verus! {

/// The keys of the console, and two virtual keys that never reach the
/// guest's registers.
#[derive(Clone, Copy, Debug, PartialEq, Eq, Structural)]
pub enum Keycode {
    A,
    B,
    Select,
    Start,
    Right,
    Left,
    Up,
    Down,
    TriggerR,
    TriggerL,
    X,
    Y,
    BlowMic,
    Lid,
}

/// The bit of a key in the key map; a clear bit means pressed.
pub open spec fn key_bit(k: Keycode) -> u32 {
    match k {
        Keycode::A => 0,
        Keycode::B => 1,
        Keycode::Select => 2,
        Keycode::Start => 3,
        Keycode::Right => 4,
        Keycode::Left => 5,
        Keycode::Up => 6,
        Keycode::Down => 7,
        Keycode::TriggerR => 8,
        Keycode::TriggerL => 9,
        Keycode::X => 10,
        Keycode::Y => 11,
        Keycode::BlowMic => 12,
        Keycode::Lid => 13,
    }
}

impl Keycode {
    /// The bit of the key in the key map.
    pub fn bit(self) -> (r: u8)
        ensures
            r == key_bit(self),
    {
        match self {
            Keycode::A => 0,
            Keycode::B => 1,
            Keycode::Select => 2,
            Keycode::Start => 3,
            Keycode::Right => 4,
            Keycode::Left => 5,
            Keycode::Up => 6,
            Keycode::Down => 7,
            Keycode::TriggerR => 8,
            Keycode::TriggerL => 9,
            Keycode::X => 10,
            Keycode::Y => 11,
            Keycode::BlowMic => 12,
            Keycode::Lid => 13,
        }
    }
}

/// The key input register: its upper bits, the ten keys from the map.
pub open spec fn key_input_of(reg: u16, key_map: u32) -> u16 {
    (reg & !0x3FFu16) | ((key_map & 0x3FF) as u16)
}

/// The extended key register: X, Y (map bits 10, 11 to bits 0, 1) and the
/// debug key (map bit 16 to bit 6) from the map, the rest from the register.
pub open spec fn ext_key_in_of(reg: u16, key_map: u32) -> u16 {
    (reg & !0x43u16) | (((key_map >> 10u32) & 0x43) as u16)
}

/// Whether a key is held in a key map.
pub open spec fn held(key_map: u32, k: Keycode) -> bool {
    key_map & (1u32 << key_bit(k)) == 0
}

/// The key input register from its current value and a key map.
pub fn key_input_from(reg: u16, key_map: u32) -> (r: u16)
    ensures
        r == key_input_of(reg, key_map),
{
    (reg & !0x3FFu16) | ((key_map & 0x3FF) as u16)
}

/// The extended key register from its current value and a key map.
pub fn ext_key_in_from(reg: u16, key_map: u32) -> (r: u16)
    ensures
        r == ext_key_in_of(reg, key_map),
{
    (reg & !0x43u16) | (((key_map >> 10u32) & 0x43) as u16)
}

/// Whether key `k` is held in `key_map`.
pub fn is_held(key_map: u32, k: Keycode) -> (r: bool)
    ensures
        r == held(key_map, k),
{
    let b = k.bit() as u32;
    key_map & (1u32 << b) == 0
}

/// What the emulator does after the virtual keys of a frame.
#[derive(Clone, Copy, Debug, PartialEq, Eq, Structural)]
pub struct HotkeyActions {
    /// The blow key is held: the microphone plays the blow clip.
    pub blow_mic: bool,
    /// The lid was opened: the ARM7 gets the unfolding interrupt.
    pub unfold_irq: bool,
}

/// The key registers and the key map that the front end writes.
pub struct Input {
    key_input: u16,
    ext_key_in: u16,
    key_map: Arc<AtomicU32>,
    prev_lid_btn: bool,
}

impl Input {
    /// The key input register as last written.
    pub closed spec fn spec_key_input(&self) -> u16 {
        self.key_input
    }

    /// The extended key register as last written.
    pub closed spec fn spec_ext_key_in(&self) -> u16 {
        self.ext_key_in
    }

    /// Whether the lid key was held at the last frame.
    pub closed spec fn spec_prev_lid_btn(&self) -> bool {
        self.prev_lid_btn
    }

    /// The key registers with no key pressed and the lid open.
    pub fn new(key_map: Arc<AtomicU32>) -> (r: Self)
        ensures
            r.spec_key_input() == 0x3FF,
            r.spec_ext_key_in() == 0x007F,
            !r.spec_prev_lid_btn(),
    {
        Input { key_input: 0x3FF, ext_key_in: 0x007F, key_map, prev_lid_btn: false }
    }

    /// The key input register with the keys as the front end holds them now.
    pub fn get_key_input(&self) -> (r: u16)
        ensures
            exists|key_map: u32| r == key_input_of(self.spec_key_input(), key_map),
    {
        let key_map = self.key_map.load(Ordering::Relaxed);
        let r = key_input_from(self.key_input, key_map);
        assert(r == key_input_of(self.spec_key_input(), key_map));
        r
    }

    /// The extended key register with the keys as the front end holds them now.
    pub fn get_ext_key_in(&self) -> (r: u16)
        ensures
            exists|key_map: u32| r == ext_key_in_of(self.spec_ext_key_in(), key_map),
    {
        let key_map = self.key_map.load(Ordering::Relaxed);
        let r = ext_key_in_from(self.ext_key_in, key_map);
        assert(r == ext_key_in_of(self.spec_ext_key_in(), key_map));
        r
    }

    /// The virtual keys of a frame, with the key map as the front end holds it now.
    pub fn process_hotkeys(&mut self) -> (r: HotkeyActions)
        ensures
            exists|key_map: u32| r == old(self).spec_hotkeys(key_map).1 && final(self).spec_fields() == old(self).spec_hotkeys(key_map).0,
    {
        let key_map = self.key_map.load(Ordering::Relaxed);
        self.apply_hotkeys(key_map)
    }

    /// The register fields.
    pub open spec fn spec_fields(&self) -> (u16, u16, bool) {
        (self.spec_key_input(), self.spec_ext_key_in(), self.spec_prev_lid_btn())
    }

    /// The register fields and actions after the virtual keys of `key_map`:
    /// a new press of the lid key closes an open lid (bit 7 set) or opens a
    /// closed one, which raises the unfolding interrupt.
    pub open spec fn spec_hotkeys(&self, key_map: u32) -> ((u16, u16, bool), HotkeyActions) {
        let lid = held(key_map, Keycode::Lid);
        let pressed = lid && !self.spec_prev_lid_btn();
        let was_closed = self.spec_ext_key_in() & 0x80 != 0;
        let ext = if pressed {
            if was_closed {
                self.spec_ext_key_in() & !0x80u16
            } else {
                self.spec_ext_key_in() | 0x80
            }
        } else {
            self.spec_ext_key_in()
        };
        (
            (self.spec_key_input(), ext, lid),
            HotkeyActions { blow_mic: held(key_map, Keycode::BlowMic), unfold_irq: pressed && was_closed },
        )
    }

    /// The virtual keys of a frame with key map `key_map`.
    pub fn apply_hotkeys(&mut self, key_map: u32) -> (r: HotkeyActions)
        ensures
            r == old(self).spec_hotkeys(key_map).1,
            final(self).spec_fields() == old(self).spec_hotkeys(key_map).0,
    {
        let blow_held = is_held(key_map, Keycode::BlowMic);
        let lid_btn = is_held(key_map, Keycode::Lid);
        let mut unfold = false;
        if lid_btn && !self.prev_lid_btn {
            let was_closed = self.ext_key_in & 0x80 != 0;
            if was_closed {
                self.ext_key_in = self.ext_key_in & !0x80u16;
                unfold = true;
            } else {
                self.ext_key_in = self.ext_key_in | 0x80;
            }
        }
        self.prev_lid_btn = lid_btn;
        HotkeyActions { blow_mic: blow_held, unfold_irq: unfold }
    }
}

} // verus!
