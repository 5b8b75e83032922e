//! Hotkey bookkeeping: which key bindings the application registers, and
//! what each incoming hotkey event means.
//!
//! The manager maps a digit key to the window grabbed under it.  Processing
//! an event never performs the operating-system action itself; it updates
//! the map and returns the action for the caller to carry out, so the whole
//! decision is checked here and the caller's part is a plain dispatch.

use std::collections::HashMap;

use vstd::prelude::*;

verus! {

/// Modifier flag for the ALT key.
pub const MOD_ALT: u32 = 0x0001;

/// Modifier flag for the CTRL key.
pub const MOD_CONTROL: u32 = 0x0002;

/// Modifier flag for the SHIFT key.
pub const MOD_SHIFT: u32 = 0x0004;

/// Virtual key code of the digit `0`; the digits `1` to `9` follow it.
pub const VK_0: u32 = 0x30;

/// Virtual key code of the letter `Q`.
pub const VK_Q: u32 = 0x51;

/// CTRL-ALT, the modifier pair that quits the application.
pub const MOD_APP: u32 = MOD_ALT | MOD_CONTROL;

/// ALT-SHIFT, the modifier pair that grabs the foreground window.
pub const MOD_GRAB: u32 = MOD_ALT | MOD_SHIFT;

/// ALT alone, the modifier that switches to a grabbed window.
pub const MOD_SWITCH: u32 = MOD_ALT;

/// What the caller must do after a hotkey event: nothing, quit the
/// application, or give the focus to a window.
#[derive(Debug, Copy, Clone, PartialEq, Eq, Structural)]
pub enum HotkeyAction {
    Idle,
    Quit,
    Focus(u64),
}

/// The bindings that the application registers: quit on CTRL-ALT-Q, and for
/// each digit `1` to `9` a grab binding (id 1) and a switch binding (id 2).
/// Each entry is `(id, modifiers, virtual key)`.
pub open spec fn hotkey_bindings() -> Seq<(u32, u32, u32)> {
    Seq::new(
        19,
        |i: int|
            if i == 0 {
                (0u32, MOD_APP, VK_Q)
            } else if i % 2 == 1 {
                (1u32, MOD_GRAB, (VK_0 + (i + 1) / 2) as u32)
            } else {
                (2u32, MOD_SWITCH, (VK_0 + i / 2) as u32)
            },
    )
}

/// Grabbed windows: a map from a digit's virtual key to a window handle.
pub struct HotkeyManager {
    mapped_windows: HashMap<u32, u64>,
}

impl View for HotkeyManager {
    type V = Map<u32, u64>;

    /// A manager stands for its key-to-window map.
    closed spec fn view(&self) -> Map<u32, u64> {
        self.mapped_windows@
    }
}

impl HotkeyManager {
    /// A fresh manager holds no grabbed windows.
    pub fn new() -> (r: HotkeyManager)
        ensures
            r@ == Map::<u32, u64>::empty(),
    {
        HotkeyManager { mapped_windows: HashMap::new() }
    }

    /// The key bindings to register, in order: see [`hotkey_bindings`].
    pub fn register_hotkeys(&self) -> (r: Vec<(u32, u32, u32)>)
        ensures
            r@ == hotkey_bindings(),
    {
        let mut r: Vec<(u32, u32, u32)> = Vec::new();
        r.push((0, MOD_APP, VK_Q));
        proof {
            assert(r@ =~= hotkey_bindings().take(1));
        }
        let mut k: u32 = 1;
        while k <= 9
            invariant
                1 <= k <= 10,
                r@ == hotkey_bindings().take(2 * k - 1),
            decreases 10 - k,
        {
            r.push((1, MOD_GRAB, VK_0 + k));
            r.push((2, MOD_SWITCH, VK_0 + k));
            k = k + 1;
            proof {
                assert(r@ =~= hotkey_bindings().take(2 * k - 1));
            }
        }
        proof {
            assert(hotkey_bindings().take(19) =~= hotkey_bindings());
        }
        r
    }

    /// Remembers the foreground window, if there is one, under key `vk`.
    fn grab_window(&mut self, vk: u32, foreground: Option<u64>)
        ensures
            final(self)@ == match foreground {
                Some(h) => old(self)@.insert(vk, h),
                None => old(self)@,
            },
    {
        if let Some(h) = foreground {
            self.mapped_windows.insert(vk, h);
        }
    }

    /// The action for key `vk`: focus the window grabbed under it, if any.
    fn switch_to_window(&self, vk: u32) -> (r: HotkeyAction)
        ensures
            r == if self@.contains_key(vk) {
                HotkeyAction::Focus(self@[vk])
            } else {
                HotkeyAction::Idle
            },
    {
        match self.mapped_windows.get(&vk) {
            Some(h) => HotkeyAction::Focus(*h),
            None => HotkeyAction::Idle,
        }
    }

    /// Decides one hotkey event `(modifiers, virtual key)`.  CTRL-ALT-Q
    /// quits; ALT-SHIFT with any key grabs the foreground window under that
    /// key; ALT with any key asks for the window grabbed under that key;
    /// anything else does nothing.
    pub fn process_hotkey(&mut self, hotkey: (u32, u32), foreground: Option<u64>) -> (r:
        HotkeyAction)
        ensures
            ({
                let (mods, vk) = hotkey;
                if mods == MOD_APP && vk == VK_Q {
                    r == HotkeyAction::Quit && final(self)@ == old(self)@
                } else if mods == MOD_GRAB {
                    r == HotkeyAction::Idle && final(self)@ == (match foreground {
                        Some(h) => old(self)@.insert(vk, h),
                        None => old(self)@,
                    })
                } else if mods == MOD_SWITCH {
                    final(self)@ == old(self)@ && r == (if old(self)@.contains_key(vk) {
                        HotkeyAction::Focus(old(self)@[vk])
                    } else {
                        HotkeyAction::Idle
                    })
                } else {
                    r == HotkeyAction::Idle && final(self)@ == old(self)@
                }
            }),
    {
        let (mods, vk) = hotkey;
        if mods == MOD_APP && vk == VK_Q {
            HotkeyAction::Quit
        } else if mods == MOD_GRAB {
            self.grab_window(vk, foreground);
            HotkeyAction::Idle
        } else if mods == MOD_SWITCH {
            self.switch_to_window(vk)
        } else {
            HotkeyAction::Idle
        }
    }
}

} // verus!
