use vstd::prelude::*;

verus! {

/// The emulated ARM7 cartridge save driver: the command being received, the
/// position of the next word, and the address of the game's parameter
/// buffer.
pub struct CartHle {
    pub cmd: u32,
    pub data_pos: u32,
    pub buffer: u32,
}

/// What the save driver does with a request word. Every action but
/// `Nothing` ends with the reply 1 (file system tag, error bit set).
#[derive(Clone, Copy, Debug, PartialEq, Eq, Structural)]
pub enum CartAction {
    Nothing,
    Reply,
    /// Sizes the save file as the word at `buffer + 4` says (bits 8 to 15
    /// are the shift of the size).
    ResizeSave { buffer: u32 },
    /// Copies save bytes to memory: the offset, destination and length are
    /// the words at `buffer + 0x0C`, `0x10` and `0x14`.
    ReadSave { buffer: u32 },
    /// Copies memory to the save: the source, offset and length are the
    /// words at `buffer + 0x0C`, `0x10` and `0x14`.
    WriteSave { buffer: u32 },
}

impl CartHle {
    /// No command.
    pub fn new() -> (r: Self)
        ensures
            r == (CartHle { cmd: 0, data_pos: 0, buffer: 0 }),
    {
        CartHle { cmd: 0, data_pos: 0, buffer: 0 }
    }

    /// Takes a request word: the first word of a command is the command.
    /// Command 0 takes the buffer address as its second word; 2 sizes an
    /// empty save file (`save_file_size` 0); 6 reads, 7 and 8 write, 9 only
    /// replies. A command that completes starts the next from its first
    /// word; otherwise the position moves on.
    pub fn ipc_recv(&mut self, data: u32, save_file_size: u32) -> (r: CartAction)
        requires
            old(self).data_pos < u32::MAX,
        ensures
            ({
                let cmd = if old(self).data_pos == 0 {
                    data
                } else {
                    old(self).cmd
                };
                let done = (cmd == 0 && old(self).data_pos == 1) || cmd == 2 || cmd == 6 || cmd == 7 || cmd == 8
                    || cmd == 9;
                &&& final(self).cmd == cmd
                &&& final(self).buffer == if cmd == 0 && old(self).data_pos == 1 {
                    data
                } else {
                    old(self).buffer
                }
                &&& final(self).data_pos == if done {
                    0
                } else {
                    (old(self).data_pos + 1) as u32
                }
                &&& r == if !done {
                    CartAction::Nothing
                } else if cmd == 2 && save_file_size == 0 {
                    CartAction::ResizeSave { buffer: old(self).buffer }
                } else if cmd == 6 {
                    CartAction::ReadSave { buffer: old(self).buffer }
                } else if cmd == 7 || cmd == 8 {
                    CartAction::WriteSave { buffer: old(self).buffer }
                } else {
                    CartAction::Reply
                }
            }),
    {
        if self.data_pos == 0 {
            self.cmd = data;
        }
        let cmd = self.cmd;
        if cmd == 0 {
            if self.data_pos == 1 {
                self.buffer = data;
                self.data_pos = 0;
                return CartAction::Reply;
            }
        } else if cmd == 2 {
            self.data_pos = 0;
            return if save_file_size == 0 {
                CartAction::ResizeSave { buffer: self.buffer }
            } else {
                CartAction::Reply
            };
        } else if cmd == 6 {
            self.data_pos = 0;
            return CartAction::ReadSave { buffer: self.buffer };
        } else if cmd == 7 || cmd == 8 {
            self.data_pos = 0;
            return CartAction::WriteSave { buffer: self.buffer };
        } else if cmd == 9 {
            self.data_pos = 0;
            return CartAction::Reply;
        }
        self.data_pos = self.data_pos + 1;
        CartAction::Nothing
    }
}

/// The save file size that the parameter word of a resize asks for: two to
/// the power of bits 8 to 15.
pub fn save_size_from_param(param: u32) -> (r: u32)
    requires
        (param >> 8u32) & 0xFF < 32,
    ensures
        r == 1u32 << ((param >> 8u32) & 0xFF),
{
    1u32 << ((param >> 8u32) & 0xFF)
}

} // verus!
