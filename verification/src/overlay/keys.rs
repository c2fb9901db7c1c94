//! Keys of the overlay.
use vstd::prelude::*;

verus! {

/// The virtual key that shows the menu as long as it is held: TAB.
pub const VK_TAB: i32 = 0x09;

/// The virtual key that pins the menu: HOME.
pub const VK_HOME: i32 = 0x24;

/// The virtual key that unloads the library: PAGE DOWN, which Win32 calls
/// `VK_NEXT`.
pub const VK_NEXT: i32 = 0x22;

/// Which keys are down at this moment.
#[derive(Clone, Copy, Debug, PartialEq, Eq, Structural)]
pub struct Down {
    pub toggle: bool,
    pub peek: bool,
    pub eject: bool,
}

/// What the keys were at the last poll. The system tells only which keys are
/// down, while the overlay wants to know which have just been pressed.
#[derive(Clone, Copy, Debug, PartialEq, Eq, Structural)]
pub struct Keys {
    pub toggle_down: bool,
    pub eject_down: bool,
}

/// What was pressed in this frame.
#[derive(Clone, Copy, Debug, PartialEq, Eq, Structural)]
pub struct Input {
    /// HOME has just been pressed: pin or release the menu.
    pub toggle: bool,
    /// TAB is held: show the menu meanwhile.
    pub peek: bool,
    /// PAGE DOWN has just been pressed: unload the library.
    pub eject: bool,
}

impl Keys {
    /// What is remembered after a poll. Without the focus nothing is: a key that
    /// is held when the focus comes back counts as pressed.
    pub open spec fn polled(self, focused: bool, down: Down) -> Keys {
        Keys {
            toggle_down: focused && down.toggle,
            eject_down: focused && down.eject,
        }
    }

    /// What a poll reports.
    pub open spec fn pressed(self, focused: bool, down: Down) -> Input {
        Input {
            toggle: focused && down.toggle && !self.toggle_down,
            peek: focused && down.peek,
            eject: focused && down.eject && !self.eject_down,
        }
    }

    /// No key was down.
    pub fn new() -> (keys: Keys)
        ensures
            keys == (Keys { toggle_down: false, eject_down: false }),
    {
        Keys { toggle_down: false, eject_down: false }
    }

    /// Takes in the state of the keys. While another window has the focus they do
    /// not count.
    pub fn poll(&mut self, focused: bool, down: Down) -> (input: Input)
        ensures
            *final(self) == old(self).polled(focused, down),
            input == old(self).pressed(focused, down),
    {
        if !focused {
            self.toggle_down = false;
            self.eject_down = false;
            return Input { toggle: false, peek: false, eject: false };
        }
        let input = Input {
            toggle: down.toggle && !self.toggle_down,
            peek: down.peek,
            eject: down.eject && !self.eject_down,
        };
        self.toggle_down = down.toggle;
        self.eject_down = down.eject;
        input
    }
}

/// Whether our process has the focus: there is a foreground window, and its
/// process is known and our own.
pub fn game_has_focus(window_is_there: bool, window_process: u32, own_process: u32) -> (r: bool)
    ensures
        r == (window_is_there && window_process != 0 && window_process == own_process),
{
    if !window_is_there {
        return false;
    }
    window_process != 0 && window_process == own_process
}

/// A key that is held is reported once and not again before it was released.
pub proof fn law_held_key_is_reported_once(keys: Keys, first: Down, second: Down)
    requires
        first.toggle,
        first.eject,
    ensures
        !keys.polled(true, first).pressed(true, second).toggle,
        !keys.polled(true, first).pressed(true, second).eject,
{
}

/// A key that was released, or pressed while another window had the focus, is
/// reported as soon as it is down.
pub proof fn law_pressed_key_is_reported(keys: Keys, first: Down, second: Down, focused: bool)
    requires
        !focused || (!first.toggle && !first.eject),
        second.toggle,
        second.eject,
    ensures
        keys.polled(focused, first).pressed(true, second).toggle,
        keys.polled(focused, first).pressed(true, second).eject,
{
}

/// The codes that the system gives to the three keys.
pub proof fn law_virtual_keys()
    ensures
        VK_TAB == 9,
        VK_NEXT == 34,
        VK_HOME == 36,
{
}

} // verus!
