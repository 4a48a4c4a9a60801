# gb_core

A Game Boy emulator core written in Verus: every function of the library is
verified against a contract stated over a mathematical model of the machine.

- `src/cpu.rs`, `src/cpu/`: the processor. `isa.rs` models an instruction as
  a function from one `CpuState` to the next (`None` where the machine has
  no defined behaviour); `execute.rs` carries out the opcodes and is proved
  to match it; `alu.rs` holds the arithmetic; `registers.rs` the register
  file and flags; `mmu.rs` the memory map, the object-memory copy and the
  transfers to video memory.
- `src/ppu.rs`: the video unit used by the memory map: its mode machine and
  the background and sprite renderers.
- `src/ppu_old.rs`: the earlier video unit with its per-tick line timing.
- `src/joypad.rs`, `src/mbc.rs`: buttons and the cartridge controller data.
- `src/frontend.rs`: what the desktop program decides: which key is which
  button, and which squares draw a picture.
- `app/main.rs`: the SDL2 desktop program around the library.

The laws of the library (read after write, push and pop, call and return,
interrupt service, the video mode order, and others) are public proof
functions beside the functions they are about, named `law_*`.

The memory map has no timer: the registers 0xFF04 to 0xFF07 are plain I/O
bytes and no timer interrupt is raised. Each cycle of the memory map moves
the video unit of `src/ppu.rs` on by one step of its mode machine, whatever
the number of ticks.

Where the machine's next step is undefined (an opcode the processor does not
carry out, a read or write of an address the memory map does not serve), the
contract of `Cpu::do_cycle` leaves it out; `Cpu::step_defined` tells whether
the processor step is defined, and `Cpu::try_do_cycle` returns `None` exactly
where the whole cycle is not.
