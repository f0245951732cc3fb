//! The kernel's demo menu and the decisions of the thread demo.
use vstd::prelude::*;

use crate::keyboard::{KEY_1, KEY_2, KEY_3, KEY_4, KEY_5, KEY_6, KEY_7, KEY_8, KEY_9, KEY_P, KEY_R, KEY_S};

verus! {

/// The demos of the menu.
#[derive(Clone, Copy, Debug, PartialEq, Eq, Structural)]
pub enum MenuItem {
    SerialLog,
    Text,
    Heap,
    Speaker,
    Keyboard,
    Interrupt,
    Thread,
    Bitmap,
    GameBoy,
    Snake,
    Pci,
    Rtl8139,
}

/// The demo that a key starts: 1 to 9, S, P and R; other keys start nothing.
pub fn menu_choice(scancode: u8) -> (item: Option<MenuItem>)
    ensures
        item == if scancode == KEY_1 {
            Some(MenuItem::SerialLog)
        } else if scancode == KEY_2 {
            Some(MenuItem::Text)
        } else if scancode == KEY_3 {
            Some(MenuItem::Heap)
        } else if scancode == KEY_4 {
            Some(MenuItem::Speaker)
        } else if scancode == KEY_5 {
            Some(MenuItem::Keyboard)
        } else if scancode == KEY_6 {
            Some(MenuItem::Interrupt)
        } else if scancode == KEY_7 {
            Some(MenuItem::Thread)
        } else if scancode == KEY_8 {
            Some(MenuItem::Bitmap)
        } else if scancode == KEY_9 {
            Some(MenuItem::GameBoy)
        } else if scancode == KEY_S {
            Some(MenuItem::Snake)
        } else if scancode == KEY_P {
            Some(MenuItem::Pci)
        } else if scancode == KEY_R {
            Some(MenuItem::Rtl8139)
        } else {
            None
        },
{
    if scancode == KEY_1 {
        Some(MenuItem::SerialLog)
    } else if scancode == KEY_2 {
        Some(MenuItem::Text)
    } else if scancode == KEY_3 {
        Some(MenuItem::Heap)
    } else if scancode == KEY_4 {
        Some(MenuItem::Speaker)
    } else if scancode == KEY_5 {
        Some(MenuItem::Keyboard)
    } else if scancode == KEY_6 {
        Some(MenuItem::Interrupt)
    } else if scancode == KEY_7 {
        Some(MenuItem::Thread)
    } else if scancode == KEY_8 {
        Some(MenuItem::Bitmap)
    } else if scancode == KEY_9 {
        Some(MenuItem::GameBoy)
    } else if scancode == KEY_S {
        Some(MenuItem::Snake)
    } else if scancode == KEY_P {
        Some(MenuItem::Pci)
    } else if scancode == KEY_R {
        Some(MenuItem::Rtl8139)
    } else {
        None
    }
}

/// What a thread of the thread demo does after printing its counter.
#[derive(Clone, Copy, Debug, PartialEq, Eq, Structural)]
pub enum ThreadAction {
    /// Yield the CPU and go on.
    Continue,
    /// Kill the thread with this id, then yield.
    Kill(usize),
    /// Exit the thread.
    Exit,
}

/// The thread demo's schedule: thread 1 kills thread 3 at count 1000,
/// thread 2 at count 2000, and exits at count 3000.
pub fn thread_action(tid: usize, counter: u64) -> (a: ThreadAction)
    ensures
        a == if tid == 1 && counter == 1000 {
            ThreadAction::Kill(3)
        } else if tid == 1 && counter == 2000 {
            ThreadAction::Kill(2)
        } else if tid == 1 && counter == 3000 {
            ThreadAction::Exit
        } else {
            ThreadAction::Continue
        },
{
    if tid == 1 {
        if counter == 1000 {
            return ThreadAction::Kill(3);
        } else if counter == 2000 {
            return ThreadAction::Kill(2);
        } else if counter == 3000 {
            return ThreadAction::Exit;
        }
    }
    ThreadAction::Continue
}

/// The terminal row where thread `tid` prints its counter.
pub fn thread_row(tid: usize) -> (y: usize)
    requires
        tid + 10 <= usize::MAX,
    ensures
        y == tid + 10,
{
    10 + tid
}

/// The terminal column where coroutine `id` prints its counter.
pub fn coroutine_column(id: usize) -> (x: usize)
    requires
        id * 10 <= usize::MAX,
    ensures
        x == id * 10,
{
    id * 10
}

} // verus!
