use heineos::gameboy::{
    apply_button, apply_key_events, cart_ram_read, cart_ram_write, frame_delay, joypad_key, line_colors, palette_color,
    rom_read, save_read_size, GbError, GbInitError, JoypadKey, BUTTON_A, BUTTON_UP, PALETTE,
};
use heineos::keyboard::KeyEvent;
use heineos::menu::{coroutine_column, menu_choice, thread_action, thread_row, MenuItem, ThreadAction};
use heineos::pit::{timer_tick, wait, TickAction, Timer};
use heineos::port::IoPort;
use heineos::serial::{ComBaseAddress, ComPort};

#[test]
fn timer_ports_and_divisor() {
    let t = Timer::new();
    assert_eq!(t.control_port(), IoPort::new(0x43));
    assert_eq!(t.data_port0(), IoPort::new(0x40));
    assert_eq!(Timer::interval_bytes(1), (0x36, 0xA9, 0x04));
    assert_eq!(Timer::interval_bytes(100), (0x36, 0x16, 0xD2));
}

#[test]
fn timer_tick_spinner_and_yield() {
    assert_eq!(timer_tick(0, 1), TickAction { new_time: 1, spinner: None, yield_cpu: false });
    assert_eq!(timer_tick(9, 1), TickAction { new_time: 10, spinner: None, yield_cpu: true });
    assert_eq!(timer_tick(249, 1), TickAction { new_time: 250, spinner: Some('/'), yield_cpu: true });
    assert_eq!(timer_tick(499, 1), TickAction { new_time: 500, spinner: Some('-'), yield_cpu: true });
    assert_eq!(timer_tick(749, 1), TickAction { new_time: 750, spinner: Some('\\'), yield_cpu: true });
    assert_eq!(timer_tick(999, 1), TickAction { new_time: 1000, spinner: Some('|'), yield_cpu: true });
}

#[test]
fn wait_is_over_after_the_time() {
    assert!(wait(100, 150, 50));
    assert!(!wait(100, 149, 50));
    assert!(wait(7, 7, 0));
}

#[test]
fn com_port_registers() {
    let c = ComPort::new(ComBaseAddress::Com1);
    assert_eq!(c.data_port.number, 0x3f8);
    assert_eq!(c.interrupt_control_port.number, 0x3f9);
    assert_eq!(c.line_control_port.number, 0x3fb);
    assert_eq!(c.line_status_port.number, 0x3fd);
    assert_eq!(ComPort::new(ComBaseAddress::Com3).data_port.number, 0x3e8);
    assert_eq!(ComBaseAddress::Com2.base(), 0x2f8);
    assert_eq!(ComBaseAddress::Com4.base(), 0x2e8);
}

#[test]
fn com_port_init_and_output() {
    let c = ComPort::new(ComBaseAddress::Com1);
    let w: Vec<(u16, u8)> = c.init_writes().iter().map(|(p, b)| (p.number, *b)).collect();
    assert_eq!(w, vec![(0x3f9, 0x00), (0x3fb, 0x80), (0x3f8, 0x01), (0x3f9, 0x00), (0x3fb, 0x03)]);
    assert!(ComPort::ready_to_write(0x20));
    assert!(ComPort::ready_to_write(0x60));
    assert!(!ComPort::ready_to_write(0x1F));
    assert_eq!(ComPort::bytes_for(b'\n'), vec![b'\r', b'\n']);
    assert_eq!(ComPort::bytes_for(b'x'), vec![b'x']);
}

#[test]
fn game_boy_error_codes() {
    assert_eq!(GbError::try_from_code(0), Some(GbError::UnknownError));
    assert_eq!(GbError::try_from_code(1), Some(GbError::InvalidOpcode));
    assert_eq!(GbError::try_from_code(2), Some(GbError::InvalidRead));
    assert_eq!(GbError::try_from_code(3), Some(GbError::InvalidWrite));
    assert_eq!(GbError::try_from_code(4), None);
    assert_eq!(GbError::try_from_code(-1), None);
    assert_eq!(GbInitError::try_from_code(0), Some(GbInitError::NoError));
    assert_eq!(GbInitError::try_from_code(1), Some(GbInitError::CartridgeUnsupported));
    assert_eq!(GbInitError::try_from_code(2), Some(GbInitError::InvalidChecksum));
    assert_eq!(GbInitError::try_from_code(3), Some(GbInitError::UnknownError));
    assert_eq!(GbInitError::try_from_code(255), None);
}

#[test]
fn game_boy_memory() {
    assert_eq!(rom_read(&[1, 2, 3], 1), 2);
    assert_eq!(rom_read(&[1, 2, 3], 3), 0);
    assert_eq!(cart_ram_read(&[], 0), 0xFF);
    assert_eq!(cart_ram_read(&[9, 8], 1), 8);
    let mut ram = vec![0u8; 4];
    cart_ram_write(&mut ram, 2, 7);
    cart_ram_write(&mut ram, 4, 7);
    assert_eq!(ram, vec![0, 0, 7, 0]);
    assert_eq!(save_read_size(100, 32), 32);
    assert_eq!(save_read_size(10, 32), 10);
}

#[test]
fn game_boy_screen_and_timing() {
    assert_eq!(palette_color(0x06), 0x346856);
    assert_eq!(palette_color(0xFF), 0x081820);
    let mut line = vec![0u8; 160];
    line[1] = 1;
    line[2] = 0xFE;
    let colors = line_colors(&line);
    assert_eq!(colors.len(), 160);
    assert_eq!(&colors[..3], &[PALETTE[0], PALETTE[1], PALETTE[2]]);
    assert_eq!(frame_delay(5), 11);
    assert_eq!(frame_delay(16), 0);
    assert_eq!(frame_delay(20), 0);
}

#[test]
fn game_boy_joypad() {
    assert_eq!(joypad_key(17), JoypadKey::Button(BUTTON_UP));
    assert_eq!(joypad_key(36), JoypadKey::Button(BUTTON_A));
    assert_eq!(joypad_key(57), JoypadKey::Button(0x08));
    assert_eq!(joypad_key(28), JoypadKey::Button(0x04));
    assert_eq!(joypad_key(1), JoypadKey::Exit);
    assert_eq!(joypad_key(2), JoypadKey::Ignored);
    let pressed = apply_button(0xFF, BUTTON_UP, true);
    assert_eq!(pressed, 0xBF);
    assert_eq!(apply_button(pressed, BUTTON_A, true), 0xBE);
    assert_eq!(apply_button(pressed, BUTTON_UP, false), 0xFF);
}

#[test]
fn menu_keys() {
    assert_eq!(menu_choice(2), Some(MenuItem::SerialLog));
    assert_eq!(menu_choice(9), Some(MenuItem::Bitmap));
    assert_eq!(menu_choice(10), Some(MenuItem::GameBoy));
    assert_eq!(menu_choice(31), Some(MenuItem::Snake));
    assert_eq!(menu_choice(25), Some(MenuItem::Pci));
    assert_eq!(menu_choice(19), Some(MenuItem::Rtl8139));
    assert_eq!(menu_choice(0), None);
    assert_eq!(menu_choice(28), None);
}

#[test]
fn thread_demo_schedule() {
    assert_eq!(thread_action(1, 1000), ThreadAction::Kill(3));
    assert_eq!(thread_action(1, 2000), ThreadAction::Kill(2));
    assert_eq!(thread_action(1, 3000), ThreadAction::Exit);
    assert_eq!(thread_action(1, 999), ThreadAction::Continue);
    assert_eq!(thread_action(2, 1000), ThreadAction::Continue);
    assert_eq!(thread_row(2), 12);
    assert_eq!(coroutine_column(3), 30);
}

fn key(scancode: u8, pressed: bool) -> KeyEvent {
    KeyEvent { ascii: 0, scancode, modifiers: 0, pressed }
}

#[test]
fn game_boy_key_events_fold_into_the_joypad() {
    // W pressed, J pressed, W released, K pressed: A and B are held.
    let events = [key(17, true), key(36, true), key(17, false), key(37, true), key(2, true)];
    assert_eq!(apply_key_events(0xFF, &events), (0xFC, false));
    // Events after escape are not applied.
    let events = [key(17, true), key(1, false), key(36, true)];
    assert_eq!(apply_key_events(0xFF, &events), (0xBF, true));
    assert_eq!(apply_key_events(0x7F, &[]), (0x7F, false));
}
