# dsvita

The emulation core of a Nintendo DS emulator, written in Verus: every
function in `src/` carries a contract that Verus proves.

Layout of `src/`:

- `div_sqrt`, `cycle_manager`, `cpu_regs`, `cp15`, `exception_handler`,
  `ipc`, `input`, `bitset`, `fixed_fifo`, `emu`: the hardware registers and
  the event scheduler.
- `cartridge*`, `key1`: game card header and image layout, the secure
  area cipher, save buffers.
- `io_lut`: how the aligned accesses of an I/O block reach its registers
  (which registers, with which shift and byte mask).
- `cheats`, `action_replay`: the cheat file format and the Action Replay
  code interpreter.
- `graphics`: the 2D engines (registers, per-line register capture, the
  software renderer and the choices of the hardware renderer), the 3D
  command queue, the texel stage of texture decoding, the geometry engine's matrix stacks, polygon attributes
  and vertex lists (not its matrix arithmetic), the 3D rendering
  registers, and the VRAM buffer.
- `hle`: the emulated ARM7 drivers (firmware, power, clock, touch screen,
  microphone, card, wireless and sound). Their decisions are functions from
  state and input to next state and an action that names the memory or
  hardware access to perform; the sound driver's sequence player runs one
  decoded note-stream instruction at a time.

`tests/` exercises the library on concrete values; `app/` holds the file
access around it.
