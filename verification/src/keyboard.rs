//! Decoding of PS/2 keyboard scancodes (scancode set 1) into key events.
use vstd::prelude::*;

use crate::port::IoPort;

verus! {

/// Modifier flags of a key event.
pub const SHIFT: u8 = 0x01;
pub const ALT_LEFT: u8 = 0x02;
pub const ALT_RIGHT: u8 = 0x04;
pub const CTRL_LEFT: u8 = 0x08;
pub const CTRL_RIGHT: u8 = 0x10;
pub const CAPS_LOCK: u8 = 0x20;
pub const NUM_LOCK: u8 = 0x40;
pub const SCROLL_LOCK: u8 = 0x80;

/// Status register bit: the output buffer holds a byte to read.
pub const OUTPUT_BUFFER_FULL: u8 = 0x01;

/// Keyboard controller registers.
pub const CONTROL_REGISTER: u16 = 0x64;
pub const DATA_REGISTER: u16 = 0x60;

/// Bit set in the scancode of a key release.
pub const BREAK_BIT: u8 = 0x80;
/// Prefix bytes of extended scancodes.
pub const PREFIX1: u8 = 0xe0;
pub const PREFIX2: u8 = 0xe1;

/// Scancodes (set 1) of the keys that the demos react to.
pub const KEY_ESCAPE: u8 = 1;
pub const KEY_1: u8 = 2;
pub const KEY_2: u8 = 3;
pub const KEY_3: u8 = 4;
pub const KEY_4: u8 = 5;
pub const KEY_5: u8 = 6;
pub const KEY_6: u8 = 7;
pub const KEY_7: u8 = 8;
pub const KEY_8: u8 = 9;
pub const KEY_9: u8 = 10;
pub const KEY_W: u8 = 17;
pub const KEY_R: u8 = 19;
pub const KEY_P: u8 = 25;
pub const KEY_ENTER: u8 = 28;
pub const KEY_A: u8 = 30;
pub const KEY_S: u8 = 31;
pub const KEY_D: u8 = 32;
pub const KEY_J: u8 = 36;
pub const KEY_K: u8 = 37;
pub const KEY_SPACE: u8 = 57;
pub const KEY_UP: u8 = 72;
pub const KEY_LEFT: u8 = 75;
pub const KEY_RIGHT: u8 = 77;
pub const KEY_DOWN: u8 = 80;

/// Number of entries of the scancode tables.
pub const TABLE_LEN: usize = 92;

/// Characters of the keys without modifiers, indexed by scancode.
pub const NORMAL_TAB: [u8; 92] = [
    0, 0, 49, 50, 51, 52, 53, 54, 55, 56, 57, 48, 225, 39, 8, 0, 113,
    119, 101, 114, 116, 122, 117, 105, 111, 112, 129, 43, 13, 0, 97,
    115, 100, 102, 103, 104, 106, 107, 108, 148, 132, 94, 0, 35, 121,
    120, 99, 118, 98, 110, 109, 44, 46, 45, 0, 42, 0, 32, 0, 0, 0, 0,
    0, 0, 0, 0, 0, 0, 0, 0, 0, 0, 0, 0, 45, 0, 0, 0, 43, 0, 0, 0, 0,
    0, 0, 0, 60, 0, 0, 0, 0, 0,
];

/// Characters of the keys with shift, indexed by scancode.
pub const SHIFT_TAB: [u8; 92] = [
    0, 0, 33, 34, 21, 36, 37, 38, 47, 40, 41, 61, 63, 96, 0, 0, 81,
    87, 69, 82, 84, 90, 85, 73, 79, 80, 154, 42, 0, 0, 65, 83, 68,
    70, 71, 72, 74, 75, 76, 153, 142, 248, 0, 39, 89, 88, 67, 86, 66,
    78, 77, 59, 58, 95, 0, 0, 0, 32, 0, 0, 0, 0, 0, 0, 0, 0, 0, 0, 0,
    0, 0, 0, 0, 0, 0, 0, 0, 0, 0, 0, 0, 0, 0, 0, 0, 0, 62, 0, 0, 0, 0, 0,
];

/// Characters of the keys with the right alt key (AltGr), indexed by scancode.
pub const ALT_TAB: [u8; 92] = [
    0, 0, 0, 253, 0, 0, 0, 0, 123, 91, 93, 125, 92, 0, 0, 0, 64, 0,
    0, 0, 0, 0, 0, 0, 0, 0, 0, 126, 0, 0, 0, 0, 0, 0, 0, 0, 0, 0, 0,
    0, 0, 0, 0, 0, 0, 0, 0, 0, 0, 0, 230, 0, 0, 0, 0, 0, 0, 0, 0, 0,
    0, 0, 0, 0, 0, 0, 0, 0, 0, 0, 0, 0, 0, 0, 0, 0, 0, 0, 0, 0, 0, 0,
    0, 0, 0, 0, 124, 0, 0, 0, 0, 0,
];

/// Characters of the numeric keypad with num lock, for scancodes 71 to 83.
pub const ASC_NUM_TAB: [u8; 13] = [55, 56, 57, 45, 52, 53, 54, 43, 49, 50, 51, 48, 44];

/// Scancodes that the numeric keypad keys stand for with num lock, for scancodes 71 to 83.
pub const SCAN_NUM_TAB: [u8; 13] = [8, 9, 10, 53, 5, 6, 7, 27, 2, 3, 4, 11, 51];

/// A key press or release, with the modifiers active at that time.
#[derive(Clone, Copy, Debug, PartialEq, Eq)]
pub struct KeyEvent {
    pub ascii: u8,
    pub scancode: u8,
    pub modifiers: u8,
    pub pressed: bool,
}

impl KeyEvent {
    /// An empty event: no key, no modifiers, released.
    pub fn new() -> (e: KeyEvent)
        ensures
            e == (KeyEvent { ascii: 0, scancode: 0, modifiers: 0, pressed: false }),
    {
        KeyEvent { ascii: 0, scancode: 0, modifiers: 0, pressed: false }
    }
}

/// All bits of flag `f` are set in `m`.
pub open spec fn has_flag(m: u8, f: u8) -> bool {
    m & f == f
}

/// `m` with the bits of `f` set.
pub open spec fn with(m: u8, f: u8) -> u8 {
    m | f
}

/// `m` with the bits of `f` cleared.
pub open spec fn without(m: u8, f: u8) -> u8 {
    m & !f
}

/// The scancode with the break bit cleared.
pub open spec fn key_code(code: u8) -> u8 {
    (code % 0x80) as u8
}

/// The scancode reports a key release: its break bit is set.
pub open spec fn is_break(code: u8) -> bool {
    code >= 0x80
}

/// The key is a modifier or lock key: it completes no key event of its own
/// (num lock counts as such a key unless the left control key is held, when
/// it acts as pause).
pub open spec fn is_state_key(m: u8, c: u8) -> bool {
    c == 42 || c == 54 || c == 56 || c == 29 || c == 58 || c == 70 || (c == 69 && !has_flag(m, CTRL_LEFT))
}

/// The modifiers after key `c` (break bit cleared) was pressed or released:
/// shift, alt and control keys set or clear their flag.
pub open spec fn modifiers_after(m: u8, c: u8, released: bool, prefix: u8) -> u8 {
    if c == 42 || c == 54 {
        if released { without(m, SHIFT) } else { with(m, SHIFT) }
    } else if c == 56 {
        let f = if prefix == PREFIX1 { ALT_RIGHT } else { ALT_LEFT };
        if released { without(m, f) } else { with(m, f) }
    } else if c == 29 {
        let f = if prefix == PREFIX1 { CTRL_RIGHT } else { CTRL_LEFT };
        if released { without(m, f) } else { with(m, f) }
    } else {
        m
    }
}

/// The character and scancode that key `c` (break bit cleared) stands for
/// under the modifiers `m`: with num lock the keypad gives digits; otherwise
/// AltGr, shift and caps lock (which only shifts letters) select the table.
pub open spec fn translate(c: u8, prefix: u8, m: u8) -> (u8, u8) {
    if has_flag(m, NUM_LOCK) && prefix == 0 && 71 <= c <= 83 {
        (ASC_NUM_TAB@[c - 71], SCAN_NUM_TAB@[c - 71])
    } else if has_flag(m, ALT_RIGHT) {
        (ALT_TAB@[c as int], c)
    } else if has_flag(m, SHIFT) {
        (SHIFT_TAB@[c as int], c)
    } else if has_flag(m, CAPS_LOCK) && ((16 <= c <= 26) || (30 <= c <= 40) || (44 <= c <= 50)) {
        (SHIFT_TAB@[c as int], c)
    } else {
        (NORMAL_TAB@[c as int], c)
    }
}

/// Driver state for the PS/2 keyboard.
pub struct Keyboard {
    prefix: u8,
    gather: KeyEvent,
    leds: u8,
    control_port: IoPort,
    data_port: IoPort,
}

/// The byte is a press of a lock key (caps lock, scroll lock, or num lock
/// without the left control key) under modifiers `m`. Such a press would
/// switch a keyboard LED, which this driver does not implement.
pub open spec fn switches_led(m: u8, code: u8) -> bool {
    let c = key_code(code);
    !(code == PREFIX1 || code == PREFIX2) && !is_break(code) && (c == 58 || c == 70 || (c == 69 && !has_flag(m, CTRL_LEFT)))
}

/// The byte can be fed to `decode_byte` under modifiers `m`: a prefix byte,
/// or a scancode that the character tables cover and that switches no LED.
pub open spec fn decodable(m: u8, code: u8) -> bool {
    code == PREFIX1 || code == PREFIX2 || (key_code(code) < TABLE_LEN && !switches_led(m, code))
}

/// Feeding byte `code` to the keyboard driver in state `k0` leads to state
/// `k1` and completes a key event exactly when `done`. Prefix bytes are
/// remembered for the next byte; shift, alt and control keys update the
/// modifiers; lock key releases do nothing; any other key completes the
/// gathered key event with its character, scancode and whether it was pressed.
pub open spec fn decoded(k0: Keyboard, code: u8, k1: Keyboard, done: bool) -> bool {
    &&& k1.control_port_spec() == k0.control_port_spec()
    &&& k1.data_port_spec() == k0.data_port_spec()
    &&& if code == PREFIX1 || code == PREFIX2 {
        &&& !done
        &&& k1.prefix() == code
        &&& k1.gather() == k0.gather()
        &&& k1.leds() == k0.leds()
    } else {
        let c = key_code(code);
        let released = is_break(code);
        let m = k0.gather().modifiers;
        &&& k1.prefix() == 0
        &&& done == !is_state_key(m, c)
        &&& k1.gather().modifiers == modifiers_after(m, c, released, k0.prefix())
        &&& k1.leds() == k0.leds()
        &&& done ==> {
            &&& (k1.gather().ascii, k1.gather().scancode) == translate(c, k0.prefix(), m)
            &&& k1.gather().pressed == !released
        }
        &&& !done ==> {
            &&& k1.gather().ascii == k0.gather().ascii
            &&& k1.gather().scancode == k0.gather().scancode
            &&& k1.gather().pressed == k0.gather().pressed
        }
    }
}

/// The flag that a shift (scancodes 42, 54), alt (56) or control (29) key
/// stands for: the right alt and control keys come with prefix 0xE0.
/// 0 for other keys.
pub open spec fn modifier_flag_of(c: int, prefix: u8) -> u8 {
    if c == 42 || c == 54 {
        0x01u8
    } else if c == 56 {
        if prefix == 0xE0 { 0x04u8 } else { 0x02u8 }
    } else if c == 29 {
        if prefix == 0xE0 { 0x10u8 } else { 0x08u8 }
    } else {
        0u8
    }
}

/// Pressing a shift, alt or control key sets its flag and releasing it
/// clears it (both shift keys share one flag); no other modifier changes and
/// no key event completes.
pub proof fn lemma_modifier_keys(k0: Keyboard, code: u8, k1: Keyboard, done: bool)
    requires
        decoded(k0, code, k1, done),
        code != 0xE0u8,
        code != 0xE1u8,
        modifier_flag_of(code as int % 0x80, k0.prefix()) != 0,
    ensures
        ({
            let f = modifier_flag_of(code as int % 0x80, k0.prefix());
            let m0 = k0.gather().modifiers;
            let m1 = k1.gather().modifiers;
            &&& !done
            &&& m1 & f == (if code >= 0x80 { 0u8 } else { f })
            &&& m1 & !f == m0 & !f
        }),
{
    let f = modifier_flag_of(code as int % 0x80, k0.prefix());
    let m0 = k0.gather().modifiers;
    assert((m0 | f) & f == f && (m0 | f) & !f == m0 & !f) by (bit_vector);
    assert((m0 & !f) & f == 0 && (m0 & !f) & !f == m0 & !f) by (bit_vector);
}

/// A key that is neither a modifier nor a lock key, with no prefix pending
/// and no AltGr held (and, with num lock, not a keypad key), completes a key
/// event: its scancode, pressed or released as the break bit says, with the
/// character of the normal table when neither shift nor caps lock is active,
/// and of the shift table while shift is held.
pub proof fn lemma_character_keys(k0: Keyboard, code: u8, k1: Keyboard, done: bool)
    requires
        decoded(k0, code, k1, done),
        code != 0xE0u8,
        code != 0xE1u8,
        k0.prefix() == 0,
        ({
            let c = code as int % 0x80;
            &&& c < 92
            &&& c != 42 && c != 54 && c != 56 && c != 29 && c != 58 && c != 70 && c != 69
        }),
        k0.gather().modifiers & 0x04 == 0,
        k0.gather().modifiers & 0x40 == 0 || !(71 <= code % 0x80 <= 83),
    ensures
        ({
            let c = code as int % 0x80;
            let m0 = k0.gather().modifiers;
            &&& done
            &&& k1.gather().scancode == c
            &&& k1.gather().pressed == (code < 0x80)
            &&& k1.gather().modifiers == m0
            &&& m0 & 0x01 == 0 && m0 & 0x20 == 0 ==> k1.gather().ascii == NORMAL_TAB@[c]
            &&& m0 & 0x01 == 0x01 ==> k1.gather().ascii == SHIFT_TAB@[c]
        }),
{
}

/// With AltGr (the right alt key) held, a key that is neither a modifier nor
/// a lock key, with no prefix pending (and, with num lock, not a keypad key),
/// gives the character of the AltGr table.
pub proof fn lemma_alt_gr_keys(k0: Keyboard, code: u8, k1: Keyboard, done: bool)
    requires
        decoded(k0, code, k1, done),
        code != 0xE0u8,
        code != 0xE1u8,
        k0.prefix() == 0,
        ({
            let c = code as int % 0x80;
            &&& c < 92
            &&& c != 42 && c != 54 && c != 56 && c != 29 && c != 58 && c != 70 && c != 69
        }),
        k0.gather().modifiers & 0x04 == 0x04,
        k0.gather().modifiers & 0x40 == 0 || !(71 <= code as int % 0x80 <= 83),
    ensures
        done,
        k1.gather().scancode == code as int % 0x80,
        k1.gather().ascii == ALT_TAB@[code as int % 0x80],
{
}

/// Any byte but a prefix byte uses up the pending prefix.
pub proof fn lemma_prefix_used_up(k0: Keyboard, code: u8, k1: Keyboard, done: bool)
    requires
        decoded(k0, code, k1, done),
        code != 0xE0u8,
        code != 0xE1u8,
    ensures
        k1.prefix() == 0,
{
}

/// Releasing caps lock (58), scroll lock (70) or num lock (69, without the
/// left control key held) completes no key event and changes nothing that
/// was gathered.
pub proof fn lemma_lock_releases(k0: Keyboard, code: u8, k1: Keyboard, done: bool)
    requires
        decoded(k0, code, k1, done),
        code >= 0x80,
        code != 0xE0u8,
        code != 0xE1u8,
        ({
            let c = code as int % 0x80;
            c == 58 || c == 70 || (c == 69 && k0.gather().modifiers & 0x08 == 0)
        }),
    ensures
        !done,
        k1.gather() == k0.gather(),
{
}

/// A prefix byte completes nothing and changes nothing but the pending prefix.
pub proof fn lemma_prefix_bytes(k0: Keyboard, code: u8, k1: Keyboard, done: bool)
    requires
        decoded(k0, code, k1, done),
        code == 0xE0u8 || code == 0xE1u8,
    ensures
        !done,
        k1.prefix() == code,
        k1.gather() == k0.gather(),
{
}

impl Keyboard {
    pub closed spec fn prefix(&self) -> u8 {
        self.prefix
    }

    /// The key event being assembled, holding the current modifiers.
    pub closed spec fn gather(&self) -> KeyEvent {
        self.gather
    }

    pub closed spec fn leds(&self) -> u8 {
        self.leds
    }

    pub closed spec fn control_port_spec(&self) -> IoPort {
        self.control_port
    }

    pub closed spec fn data_port_spec(&self) -> IoPort {
        self.data_port
    }

    /// Create the driver: no prefix pending, no modifiers, all LEDs off.
    pub fn new() -> (k: Keyboard)
        ensures
            k.prefix() == 0,
            k.gather() == (KeyEvent { ascii: 0, scancode: 0, modifiers: 0, pressed: false }),
            k.leds() == 0,
            k.control_port_spec().number == CONTROL_REGISTER,
            k.data_port_spec().number == DATA_REGISTER,
    {
        Keyboard {
            prefix: 0,
            gather: KeyEvent::new(),
            leds: 0,
            control_port: IoPort::new(CONTROL_REGISTER),
            data_port: IoPort::new(DATA_REGISTER),
        }
    }

    /// The port of the status and command register.
    pub fn control_port(&self) -> (p: IoPort)
        ensures
            p == self.control_port_spec(),
    {
        self.control_port
    }

    /// The port of the data register.
    pub fn data_port(&self) -> (p: IoPort)
        ensures
            p == self.data_port_spec(),
    {
        self.data_port
    }

    /// A byte from the status register says that a data byte can be read.
    pub fn output_buffer_full(status: u8) -> (r: bool)
        ensures
            r == (status & OUTPUT_BUFFER_FULL != 0),
    {
        status & OUTPUT_BUFFER_FULL != 0
    }

    /// The byte can be fed to `decode_byte` now (see `decodable`).
    pub fn can_decode(&self, code: u8) -> (r: bool)
        ensures
            r == decodable(self.gather().modifiers, code),
    {
        if code == PREFIX1 || code == PREFIX2 {
            return true;
        }
        let released = code & BREAK_BIT != 0;
        let c = code & !BREAK_BIT;
        assert(released == (code >= 0x80) && c == code % 0x80) by (bit_vector)
            requires
                released == (code & 0x80u8 != 0),
                c == code & !0x80u8,
        ;
        let m = self.gather.modifiers;
        let lock_press = !released && (c == 58 || c == 70 || (c == 69 && m & CTRL_LEFT != CTRL_LEFT));
        (c as usize) < TABLE_LEN && !lock_press
    }

    /// One step of polling the keyboard for a key event: feed a byte read
    /// from the data port; the completed key event, if the byte completes one.
    pub fn poll_key_event(&mut self, data: u8) -> (e: Option<KeyEvent>)
        requires
            decodable(old(self).gather().modifiers, data),
        ensures
            decoded(*old(self), data, *final(self), e is Some),
            e matches Some(ev) ==> ev == final(self).gather(),
    {
        if self.decode_byte(data) {
            Some(self.gather)
        } else {
            None
        }
    }

    /// Set the character and scancode of `key` for key `code` (break bit cleared).
    fn parse_ascii_code(code: u8, prefix: u8, key: &mut KeyEvent)
        requires
            code < TABLE_LEN,
        ensures
            (final(key).ascii, final(key).scancode) == translate(code, prefix, old(key).modifiers),
            final(key).modifiers == old(key).modifiers,
            final(key).pressed == old(key).pressed,
    {
        let m = key.modifiers;
        if m & NUM_LOCK == NUM_LOCK && prefix == 0 && code >= 71 && code <= 83 {
            key.ascii = ASC_NUM_TAB[(code - 71) as usize];
            key.scancode = SCAN_NUM_TAB[(code - 71) as usize];
        } else if m & ALT_RIGHT == ALT_RIGHT {
            key.ascii = ALT_TAB[code as usize];
            key.scancode = code;
        } else if m & SHIFT == SHIFT {
            key.ascii = SHIFT_TAB[code as usize];
            key.scancode = code;
        } else if m & CAPS_LOCK == CAPS_LOCK {
            if (code >= 16 && code <= 26) || (code >= 30 && code <= 40) || (code >= 44 && code <= 50) {
                key.ascii = SHIFT_TAB[code as usize];
                key.scancode = code;
            } else {
                key.ascii = NORMAL_TAB[code as usize];
                key.scancode = code;
            }
        } else {
            key.ascii = NORMAL_TAB[code as usize];
            key.scancode = code;
        }
    }

    /// Feed one byte read from the keyboard. Prefix bytes are remembered for
    /// the next byte; shift, alt and control keys update the modifiers; any
    /// other key but a lock key completes the gathered key event, which is
    /// then signalled by returning `true`.
    pub fn decode_byte(&mut self, code: u8) -> (done: bool)
        requires
            decodable(old(self).gather().modifiers, code),
        ensures
            decoded(*old(self), code, *final(self), done),
    {
        if code == PREFIX1 || code == PREFIX2 {
            self.prefix = code;
            return false;
        }
        let prefix = self.prefix;
        self.prefix = 0;
        let released = code & BREAK_BIT != 0;
        let c = code & !BREAK_BIT;
        assert(released == (code >= 0x80) && c == code % 0x80) by (bit_vector)
            requires
                released == (code & 0x80u8 != 0),
                c == code & !0x80u8,
        ;
        let m = self.gather.modifiers;
        if c == 42 || c == 54 {
            self.gather.modifiers = if released { m & !SHIFT } else { m | SHIFT };
            false
        } else if c == 56 {
            let f = if prefix == PREFIX1 { ALT_RIGHT } else { ALT_LEFT };
            self.gather.modifiers = if released { m & !f } else { m | f };
            false
        } else if c == 29 {
            let f = if prefix == PREFIX1 { CTRL_RIGHT } else { CTRL_LEFT };
            self.gather.modifiers = if released { m & !f } else { m | f };
            false
        } else if c == 58 || c == 70 || (c == 69 && m & CTRL_LEFT != CTRL_LEFT) {
            // Only a release gets here: a press would need the LEDs switched.
            false
        } else {
            Keyboard::parse_ascii_code(c, prefix, &mut self.gather);
            self.gather.pressed = !released;
            true
        }
    }
}

} // verus!
