//! The logic of the Game Boy emulator front end: error codes of the
//! emulator, cartridge memory accesses, the screen palette and the joypad.
use vstd::prelude::*;

use crate::keyboard::{KeyEvent, KEY_A, KEY_D, KEY_ENTER, KEY_ESCAPE, KEY_J, KEY_K, KEY_S, KEY_SPACE, KEY_W};

verus! {

/// Joypad button bits; a pressed button's bit is cleared.
pub const BUTTON_A: u8 = 0x01;
pub const BUTTON_B: u8 = 0x02;
pub const BUTTON_SELECT: u8 = 0x04;
pub const BUTTON_START: u8 = 0x08;
pub const BUTTON_RIGHT: u8 = 0x10;
pub const BUTTON_LEFT: u8 = 0x20;
pub const BUTTON_UP: u8 = 0x40;
pub const BUTTON_DOWN: u8 = 0x80;

/// The joypad state with no button pressed.
pub const JOYPAD_RELEASED: u8 = 0xFF;

/// Target frame rate of the emulator.
pub const TARGET_FRAME_RATE: usize = 60;
/// Milliseconds per frame at the target frame rate.
pub const MS_PER_FRAME: usize = 16;

/// Width of the Game Boy screen in pixels.
pub const SCREEN_WIDTH: usize = 160;
/// Height of the Game Boy screen in pixels.
pub const SCREEN_HEIGHT: usize = 144;

/// The four shades of the screen, as 32-bit RGB colors.
pub const PALETTE: [u32; 4] = [0xe0f8d0, 0x88c070, 0x346856, 0x081820];

/// Error codes reported by the emulator while running.
#[derive(Clone, Copy, Debug, PartialEq, Eq, Structural)]
pub enum GbError {
    UnknownError,
    InvalidOpcode,
    InvalidRead,
    InvalidWrite,
}

/// Error codes reported by the emulator's initialization.
#[derive(Clone, Copy, Debug, PartialEq, Eq, Structural)]
pub enum GbInitError {
    NoError,
    CartridgeUnsupported,
    InvalidChecksum,
    UnknownError,
}

impl GbError {
    /// The error for an error code; `None` for an unknown code.
    pub fn try_from_code(value: i32) -> (r: Option<GbError>)
        ensures
            r == match value {
                0 => Some(GbError::UnknownError),
                1 => Some(GbError::InvalidOpcode),
                2 => Some(GbError::InvalidRead),
                3 => Some(GbError::InvalidWrite),
                _ => None,
            },
    {
        match value {
            0 => Some(GbError::UnknownError),
            1 => Some(GbError::InvalidOpcode),
            2 => Some(GbError::InvalidRead),
            3 => Some(GbError::InvalidWrite),
            _ => None,
        }
    }
}

impl GbInitError {
    /// The initialization result for a result code; `None` for an unknown code.
    pub fn try_from_code(value: i32) -> (r: Option<GbInitError>)
        ensures
            r == match value {
                0 => Some(GbInitError::NoError),
                1 => Some(GbInitError::CartridgeUnsupported),
                2 => Some(GbInitError::InvalidChecksum),
                3 => Some(GbInitError::UnknownError),
                _ => None,
            },
    {
        match value {
            0 => Some(GbInitError::NoError),
            1 => Some(GbInitError::CartridgeUnsupported),
            2 => Some(GbInitError::InvalidChecksum),
            3 => Some(GbInitError::UnknownError),
            _ => None,
        }
    }
}

/// Read a byte of the ROM; addresses beyond it read as 0.
pub fn rom_read(rom: &[u8], addr: u32) -> (b: u8)
    ensures
        b == if (addr as int) < rom@.len() { rom@[addr as int] } else { 0u8 },
{
    if (addr as usize) < rom.len() {
        rom[addr as usize]
    } else {
        0
    }
}

/// Read a byte of the cartridge RAM; addresses beyond it read as 0xFF.
pub fn cart_ram_read(ram: &[u8], addr: u32) -> (b: u8)
    ensures
        b == if (addr as int) < ram@.len() { ram@[addr as int] } else { 0xFFu8 },
{
    if (addr as usize) < ram.len() {
        ram[addr as usize]
    } else {
        0xFF
    }
}

/// Write a byte of the cartridge RAM; writes beyond it are dropped.
pub fn cart_ram_write(ram: &mut Vec<u8>, addr: u32, val: u8)
    ensures
        final(ram)@ == if (addr as int) < old(ram)@.len() { old(ram)@.update(addr as int, val) } else { old(ram)@ },
{
    if (addr as usize) < ram.len() {
        ram.set(addr as usize, val);
    }
}

/// The color of a screen pixel: its lowest two bits select the shade.
pub fn palette_color(pixel: u8) -> (c: u32)
    ensures
        c == PALETTE@[(pixel % 4) as int],
{
    PALETTE[(pixel % 4) as usize]
}

/// The colors of one line of the screen.
pub fn line_colors(pixels: &[u8]) -> (colors: Vec<u32>)
    requires
        pixels@.len() >= SCREEN_WIDTH,
    ensures
        colors@.len() == SCREEN_WIDTH,
        forall|x: int| 0 <= x < SCREEN_WIDTH ==> #[trigger] colors@[x] == PALETTE@[(pixels@[x] % 4) as int],
{
    let mut colors: Vec<u32> = Vec::new();
    let mut x: usize = 0;
    while x < SCREEN_WIDTH
        invariant
            x <= SCREEN_WIDTH,
            pixels@.len() >= SCREEN_WIDTH,
            colors@.len() == x,
            forall|k: int| 0 <= k < x ==> #[trigger] colors@[k] == PALETTE@[(pixels@[k] % 4) as int],
        decreases SCREEN_WIDTH - x,
    {
        colors.push(palette_color(pixels[x]));
        x = x + 1;
    }
    colors
}

/// What a key does in the emulator.
#[derive(Clone, Copy, Debug, PartialEq, Eq, Structural)]
pub enum JoypadKey {
    /// The key stands for the joypad buttons of the mask.
    Button(u8),
    /// The key stops the emulator.
    Exit,
    /// The key does nothing.
    Ignored,
}

/// The joypad button of a key: W A S D for the direction pad, J and K for A
/// and B, space for start, enter for select; escape stops the emulator.
pub open spec fn joypad_key_of(scancode: u8) -> JoypadKey {
    if scancode == KEY_W {
        JoypadKey::Button(BUTTON_UP)
    } else if scancode == KEY_A {
        JoypadKey::Button(BUTTON_LEFT)
    } else if scancode == KEY_S {
        JoypadKey::Button(BUTTON_DOWN)
    } else if scancode == KEY_D {
        JoypadKey::Button(BUTTON_RIGHT)
    } else if scancode == KEY_J {
        JoypadKey::Button(BUTTON_A)
    } else if scancode == KEY_K {
        JoypadKey::Button(BUTTON_B)
    } else if scancode == KEY_SPACE {
        JoypadKey::Button(BUTTON_START)
    } else if scancode == KEY_ENTER {
        JoypadKey::Button(BUTTON_SELECT)
    } else if scancode == KEY_ESCAPE {
        JoypadKey::Exit
    } else {
        JoypadKey::Ignored
    }
}

/// What key `scancode` does in the emulator (see `joypad_key_of`).
pub fn joypad_key(scancode: u8) -> (k: JoypadKey)
    ensures
        k == joypad_key_of(scancode),
{
    if scancode == KEY_W {
        JoypadKey::Button(BUTTON_UP)
    } else if scancode == KEY_A {
        JoypadKey::Button(BUTTON_LEFT)
    } else if scancode == KEY_S {
        JoypadKey::Button(BUTTON_DOWN)
    } else if scancode == KEY_D {
        JoypadKey::Button(BUTTON_RIGHT)
    } else if scancode == KEY_J {
        JoypadKey::Button(BUTTON_A)
    } else if scancode == KEY_K {
        JoypadKey::Button(BUTTON_B)
    } else if scancode == KEY_SPACE {
        JoypadKey::Button(BUTTON_START)
    } else if scancode == KEY_ENTER {
        JoypadKey::Button(BUTTON_SELECT)
    } else if scancode == KEY_ESCAPE {
        JoypadKey::Exit
    } else {
        JoypadKey::Ignored
    }
}

/// The joypad state after the buttons of `mask` were pressed (bits cleared)
/// or released (bits set).
pub open spec fn joypad_after(state: u8, mask: u8, pressed: bool) -> u8 {
    if pressed { state & !mask } else { state | mask }
}

/// Update the joypad state for a key press or release of the buttons of `mask`.
pub fn apply_button(state: u8, mask: u8, pressed: bool) -> (s: u8)
    ensures
        s == joypad_after(state, mask, pressed),
{
    if pressed {
        state & !mask
    } else {
        state | mask
    }
}

/// Pressing a button and releasing it again restores every bit of its mask,
/// and leaves the other buttons as they were.
pub proof fn lemma_press_release(state: u8, mask: u8)
    ensures
        joypad_after(joypad_after(state, mask, true), mask, false) & mask == mask,
        joypad_after(joypad_after(state, mask, true), mask, false) & !mask == state & !mask,
        joypad_after(state, mask, true) & mask == 0,
{
    assert(((state & !mask) | mask) & mask == mask) by (bit_vector);
    assert(((state & !mask) | mask) & !mask == state & !mask) by (bit_vector);
    assert((state & !mask) & mask == 0) by (bit_vector);
}

/// The joypad state after one key event: a button key presses or releases its button.
pub open spec fn joypad_step(state: u8, e: KeyEvent) -> u8 {
    match joypad_key_of(e.scancode) {
        JoypadKey::Button(mask) => joypad_after(state, mask, e.pressed),
        _ => state,
    }
}

/// The joypad state after the key events `events`, in order.
pub open spec fn joypad_fold(state: u8, events: Seq<KeyEvent>) -> u8
    decreases events.len(),
{
    if events.len() == 0 {
        state
    } else {
        joypad_step(joypad_fold(state, events.drop_last()), events.last())
    }
}

/// Whether the latest event of key `scancode` among `events` was a press;
/// `None` if the key has no event.
pub open spec fn latest_press(events: Seq<KeyEvent>, scancode: u8) -> Option<bool>
    decreases events.len(),
{
    if events.len() == 0 {
        None
    } else if events.last().scancode == scancode {
        Some(events.last().pressed)
    } else {
        latest_press(events.drop_last(), scancode)
    }
}

/// Apply the key events that arrived during a frame to the joypad state, up
/// to the first escape event (press or release), which stops the emulator.
/// Returns the new state and whether an escape event came.
pub fn apply_key_events(state: u8, events: &[KeyEvent]) -> (r: (u8, bool))
    ensures
        !r.1 ==> r.0 == joypad_fold(state, events@) && forall|k: int| 0 <= k < events@.len() ==> #[trigger] events@[k].scancode != KEY_ESCAPE,
        r.1 ==> exists|n: int|
            0 <= n < events@.len()
            && #[trigger] events@[n].scancode == KEY_ESCAPE
            && (forall|k: int| 0 <= k < n ==> #[trigger] events@[k].scancode != KEY_ESCAPE)
            && r.0 == joypad_fold(state, events@.take(n)),
{
    let mut joypad = state;
    let mut i: usize = 0;
    while i < events.len()
        invariant
            i <= events@.len(),
            joypad == joypad_fold(state, events@.take(i as int)),
            forall|k: int| 0 <= k < i ==> #[trigger] events@[k].scancode != KEY_ESCAPE,
        decreases events@.len() - i,
    {
        let e = events[i];
        match joypad_key(e.scancode) {
            JoypadKey::Button(mask) => {
                joypad = apply_button(joypad, mask, e.pressed);
            },
            JoypadKey::Exit => {
                assert(events@[i as int].scancode == KEY_ESCAPE);
                return (joypad, true);
            },
            JoypadKey::Ignored => {},
        }
        assert(events@.take(i as int + 1).drop_last() =~= events@.take(i as int));
        i = i + 1;
    }
    assert(events@.take(i as int) =~= events@);
    (joypad, false)
}

/// The joypad bit of each key, said with the raw scancodes (set 1) and bits:
/// W (17) up 0x40, A (30) left 0x20, S (31) down 0x80, D (32) right 0x10,
/// J (36) button A 0x01, K (37) button B 0x02, space (57) start 0x08, enter
/// (28) select 0x04; 0 for other keys.
pub open spec fn key_bit(scancode: u8) -> u8 {
    if scancode == 17 {
        0x40u8
    } else if scancode == 30 {
        0x20u8
    } else if scancode == 31 {
        0x80u8
    } else if scancode == 32 {
        0x10u8
    } else if scancode == 36 {
        0x01u8
    } else if scancode == 37 {
        0x02u8
    } else if scancode == 57 {
        0x08u8
    } else if scancode == 28 {
        0x04u8
    } else {
        0u8
    }
}

/// A key event changes the joypad state in exactly its key's bit: a press
/// clears it, a release sets it, and every other bit stays; keys without a
/// button (escape among them) change nothing.
pub proof fn lemma_key_event_bits(state: u8, e: KeyEvent)
    ensures
        ({
            let b = key_bit(e.scancode);
            let s1 = joypad_fold(state, seq![e]);
            &&& b == 0 ==> s1 == state
            &&& b != 0 ==> s1 & b == (if e.pressed { 0u8 } else { b }) && s1 & !b == state & !b
        }),
{
    let s = seq![e];
    assert(s.drop_last() =~= Seq::<KeyEvent>::empty());
    assert(joypad_fold(state, s.drop_last()) == state);
    assert(s.last() == e);
    assert(joypad_fold(state, s) == joypad_step(state, e));
    let b = key_bit(e.scancode);
    if b != 0 {
        assert(joypad_key_of(e.scancode) == JoypadKey::Button(b));
    } else {
        assert(!(joypad_key_of(e.scancode) is Button));
    }
    assert((state & !b) & b == 0 && (state & !b) & !b == state & !b) by (bit_vector);
    assert((state | b) & b == b && (state | b) & !b == state & !b) by (bit_vector);
}

/// Escape (scancode 1) is the one key that stops the emulator; every key
/// with no joypad bit other than escape is ignored.
pub proof fn lemma_escape_only_exit(scancode: u8)
    ensures
        joypad_key_of(scancode) == JoypadKey::Exit <==> scancode == 1,
        joypad_key_of(scancode) == JoypadKey::Ignored <==> key_bit(scancode) == 0 && scancode != 1,
{
}

/// A button's bit is untouched by events of any other key.
proof fn lemma_other_button(state: u8, mask: u8, other: u8, pressed: bool)
    requires
        mask == 1 || mask == 2 || mask == 4 || mask == 8 || mask == 16 || mask == 32 || mask == 64 || mask == 128,
        other == 1 || other == 2 || other == 4 || other == 8 || other == 16 || other == 32 || other == 64 || other == 128,
        mask != other,
    ensures
        joypad_after(state, other, pressed) & mask == state & mask,
{
    assert((state & !other) & mask == state & mask) by (bit_vector)
        requires
            mask == 1 || mask == 2 || mask == 4 || mask == 8 || mask == 16 || mask == 32 || mask == 64 || mask == 128,
            other == 1 || other == 2 || other == 4 || other == 8 || other == 16 || other == 32 || other == 64 || other == 128,
            mask != other;
    assert((state | other) & mask == state & mask) by (bit_vector)
        requires
            mask == 1 || mask == 2 || mask == 4 || mask == 8 || mask == 16 || mask == 32 || mask == 64 || mask == 128,
            other == 1 || other == 2 || other == 4 || other == 8 || other == 16 || other == 32 || other == 64 || other == 128,
            mask != other;
}

/// After any sequence of key events, a button is pressed (its bit cleared)
/// exactly when the latest event of its key was a press; a button whose key
/// had no event keeps its bit. Starting from `JOYPAD_RELEASED`, the joypad
/// state is 0xFF with exactly the bits of the buttons whose key was last
/// pressed cleared.
pub proof fn lemma_joypad_buttons(state: u8, events: Seq<KeyEvent>, scancode: u8, mask: u8)
    requires
        joypad_key_of(scancode) == JoypadKey::Button(mask),
    ensures
        joypad_fold(state, events) & mask == match latest_press(events, scancode) {
            Some(pressed) => if pressed { 0u8 } else { mask },
            None => state & mask,
        },
    decreases events.len(),
{
    if events.len() > 0 {
        let prev = joypad_fold(state, events.drop_last());
        lemma_joypad_buttons(state, events.drop_last(), scancode, mask);
        let e = events.last();
        if e.scancode == scancode {
            lemma_press_release(prev, mask);
            assert((prev | mask) & mask == mask) by (bit_vector);
        } else {
            match joypad_key_of(e.scancode) {
                JoypadKey::Button(other) => {
                    lemma_other_button(prev, mask, other, e.pressed);
                },
                _ => {},
            }
        }
    }
}

/// How long to sleep after a frame that took `frame_ms` milliseconds, to keep
/// the target frame rate.
pub fn frame_delay(frame_ms: usize) -> (d: usize)
    ensures
        d == if frame_ms < MS_PER_FRAME { MS_PER_FRAME - frame_ms } else { 0 },
{
    if frame_ms < MS_PER_FRAME {
        MS_PER_FRAME - frame_ms
    } else {
        0
    }
}

/// How many bytes of a save file of `file_size` bytes go into a cartridge RAM of `ram_size` bytes.
pub fn save_read_size(file_size: usize, ram_size: usize) -> (n: usize)
    ensures
        n == if file_size < ram_size { file_size } else { ram_size },
{
    if file_size < ram_size {
        file_size
    } else {
        ram_size
    }
}

} // verus!
