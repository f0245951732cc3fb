# heineos

The logic of a small x86-64 teaching kernel, written in Verus and verified.

`src/` is the verified library:

- `allocator` — `align_up`; `allocator::bump`, a bump allocator; and
  `allocator::list`, a free-list allocator whose free blocks stay ordered by
  address and merged with their neighbours.
- `bitmap` — a loader for 24-bit uncompressed BMP images.
- `keyboard` — decoding of PS/2 scancodes (set 1) into key events, with
  shift, alt and control modifiers.
- `pit`, `serial`, `port` — what the timer and serial drivers decide: port
  numbers, command bytes, the timer interrupt's actions.
- `snake`, `snake_screen` — the rules of the snake game and its screen geometry.
- `gameboy` — the Game Boy emulator front end: error codes, cartridge memory,
  palette and joypad.
- `menu` — the demo menu's keys and the thread demo's schedule.

`app/` holds what runs around the library on the machine: port I/O, the
interrupt handlers and global state, the global allocator glue, the demo
loops and the emulator's C interface. `tests/` exercises the library.
