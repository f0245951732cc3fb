use heineos::keyboard::{KeyEvent, Keyboard, ALT_RIGHT, CTRL_LEFT, SHIFT};

fn feed(k: &mut Keyboard, bytes: &[u8]) -> Option<KeyEvent> {
    let mut last = None;
    for b in bytes {
        last = k.poll_key_event(*b);
    }
    last
}

#[test]
fn new_keyboard_is_idle() {
    let k = Keyboard::new();
    assert_eq!(k.control_port().number, 0x64);
    assert_eq!(k.data_port().number, 0x60);
    assert_eq!(KeyEvent::new(), KeyEvent { ascii: 0, scancode: 0, modifiers: 0, pressed: false });
}

#[test]
fn output_buffer_status_bit() {
    assert!(Keyboard::output_buffer_full(0x01));
    assert!(Keyboard::output_buffer_full(0x1D));
    assert!(!Keyboard::output_buffer_full(0x1C));
}

#[test]
fn plain_key_press_and_release() {
    let mut k = Keyboard::new();
    assert!(k.decode_byte(0x1E));
    let e = k.poll_key_event(0x9E).unwrap();
    assert_eq!(e, KeyEvent { ascii: b'a', scancode: 30, modifiers: 0, pressed: false });
    let e = k.poll_key_event(0x1E).unwrap();
    assert_eq!(e, KeyEvent { ascii: b'a', scancode: 30, modifiers: 0, pressed: true });
}

#[test]
fn shift_selects_the_shift_table() {
    let mut k = Keyboard::new();
    assert!(!k.decode_byte(0x2A));
    let e = k.poll_key_event(0x1E).unwrap();
    assert_eq!(e, KeyEvent { ascii: b'A', scancode: 30, modifiers: SHIFT, pressed: true });
    let e = k.poll_key_event(0x02).unwrap();
    assert_eq!(e.ascii, b'!');
    assert_eq!(k.poll_key_event(0xAA), None);
    let e = k.poll_key_event(0x02).unwrap();
    assert_eq!(e, KeyEvent { ascii: b'1', scancode: 2, modifiers: 0, pressed: true });
}

#[test]
fn alt_gr_after_prefix() {
    let mut k = Keyboard::new();
    assert_eq!(feed(&mut k, &[0xE0, 0x38]), None);
    let e = k.poll_key_event(0x10).unwrap();
    assert_eq!(e, KeyEvent { ascii: b'@', scancode: 16, modifiers: ALT_RIGHT, pressed: true });
    assert_eq!(feed(&mut k, &[0xE0, 0xB8]), None);
    assert_eq!(k.poll_key_event(0x10).unwrap().ascii, b'q');
}

#[test]
fn ctrl_num_lock_is_pause() {
    let mut k = Keyboard::new();
    assert_eq!(k.poll_key_event(0x1D), None);
    let e = k.poll_key_event(0x45).unwrap();
    assert_eq!(e, KeyEvent { ascii: 0, scancode: 69, modifiers: CTRL_LEFT, pressed: true });
    let e = k.poll_key_event(0xC5).unwrap();
    assert!(!e.pressed);
}

#[test]
fn prefix_alone_completes_nothing() {
    let mut k = Keyboard::new();
    assert!(!k.decode_byte(0xE0));
    assert!(!k.decode_byte(0xE1));
    assert!(k.decode_byte(0x1C));
}

#[test]
fn lock_key_presses_cannot_be_decoded() {
    let mut k = Keyboard::new();
    assert!(!k.can_decode(0x3A));
    assert!(!k.can_decode(0x46));
    assert!(!k.can_decode(0x45));
    assert!(!k.can_decode(0x5C));
    assert!(k.can_decode(0xE0));
    assert!(k.can_decode(0x1E));
    // Releasing a lock key changes nothing.
    assert!(k.can_decode(0xBA));
    assert_eq!(k.poll_key_event(0xBA), None);
    assert_eq!(k.poll_key_event(0x1E).unwrap().modifiers, 0);
    // With the left control key held, num lock is pause.
    assert_eq!(k.poll_key_event(0x1D), None);
    assert!(k.can_decode(0x45));
}
