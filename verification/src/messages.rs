//! The decisions inside the window procedures: what each incoming window
//! message or notification means, separated from the platform calls that
//! carry them.
//!
//! The main window turns hotkey messages into application events; the popup
//! window turns edit-box notifications into search events.  Both are pure
//! functions from the message data to the action the shell must carry out,
//! so the whole dispatch is checked here and the shell's part is plain
//! plumbing.

use vstd::prelude::*;

use crate::winmsg::HIWORD;

verus! {

/// Hotkey binding id: quit the application.
pub const HK_QUIT: i32 = 1;

/// Hotkey binding id: open the search popup.
pub const HK_POPUP: i32 = 2;

/// Hotkey binding id: grab the foreground window under a digit.
pub const HK_GRAB: i32 = 3;

/// Hotkey binding id: switch to a window grabbed under a digit.
pub const HK_SWITCH: i32 = 4;

/// Hotkey binding id: clear the windows grabbed under a digit.
pub const HK_CLEAR: i32 = 5;

/// The hotkey message number.
pub const WM_HOTKEY: u32 = 0x0312;

/// The window-destroyed message number.
pub const WM_DESTROY: u32 = 0x0002;

/// Edit-box notification: the return key was pressed.
pub const MSG_NOTIFY_RETURN: u32 = 1;

/// Edit-box notification: the escape key was pressed.
pub const MSG_NOTIFY_ESCAPE: u32 = 2;

/// Edit-box notification: the text changed.
pub const MSG_NOTIFY_CHAR: u32 = 3;

/// The virtual key code of the escape key.
pub const VK_ESCAPE: u32 = 0x1B;

/// An application event raised by the main window.
#[derive(Debug, Clone, PartialEq, Eq)]
pub enum AppMsg {
    ShowPopup,
    GrabWindow(u32),
    FocusWindow(u32),
    ClearWindow(u32),
}

/// What the main window's procedure must do with one message.
#[derive(Debug, Clone, PartialEq, Eq)]
pub enum MainAction {
    Quit,
    Emit(AppMsg),
    Ignore,
}

/// A search event raised by the popup window.
#[derive(Debug, Clone, PartialEq, Eq)]
pub enum PopupMsg {
    Search(Option<String>),
    Accept(String),
}

/// What the popup window's procedure must do with one notification.
#[derive(Debug, Clone, PartialEq, Eq)]
pub enum PopupAction {
    Hide,
    Emit(PopupMsg),
    EmitAndClear(PopupMsg),
    Ignore,
}

/// The event behind one hotkey message: quit, open the popup, or grab,
/// focus or clear the windows under the pressed digit.
pub fn on_hotkey(id: i32, vk: u32) -> (r: MainAction)
    ensures
        r == if id == HK_QUIT {
            MainAction::Quit
        } else if id == HK_POPUP {
            MainAction::Emit(AppMsg::ShowPopup)
        } else if id == HK_GRAB {
            MainAction::Emit(AppMsg::GrabWindow(vk))
        } else if id == HK_SWITCH {
            MainAction::Emit(AppMsg::FocusWindow(vk))
        } else if id == HK_CLEAR {
            MainAction::Emit(AppMsg::ClearWindow(vk))
        } else {
            MainAction::Ignore
        },
{
    if id == HK_QUIT {
        MainAction::Quit
    } else if id == HK_POPUP {
        MainAction::Emit(AppMsg::ShowPopup)
    } else if id == HK_GRAB {
        MainAction::Emit(AppMsg::GrabWindow(vk))
    } else if id == HK_SWITCH {
        MainAction::Emit(AppMsg::FocusWindow(vk))
    } else if id == HK_CLEAR {
        MainAction::Emit(AppMsg::ClearWindow(vk))
    } else {
        MainAction::Ignore
    }
}

/// The main window's decision for one message.  A hotkey message carries
/// the binding id in `wparam` and packs the pressed virtual key into the
/// high word of `lparam`; destruction quits; everything else is left to the
/// platform's default handling.
pub fn main_window_message(msg: u32, wparam: i32, lparam: u32) -> (r: MainAction)
    ensures
        msg == WM_HOTKEY ==> r == ({
            let vk = lparam >> 16u32;
            if wparam == HK_QUIT {
                MainAction::Quit
            } else if wparam == HK_POPUP {
                MainAction::Emit(AppMsg::ShowPopup)
            } else if wparam == HK_GRAB {
                MainAction::Emit(AppMsg::GrabWindow(vk))
            } else if wparam == HK_SWITCH {
                MainAction::Emit(AppMsg::FocusWindow(vk))
            } else if wparam == HK_CLEAR {
                MainAction::Emit(AppMsg::ClearWindow(vk))
            } else {
                MainAction::Ignore
            }
        }),
        msg == WM_DESTROY ==> r == MainAction::Quit,
        msg != WM_HOTKEY && msg != WM_DESTROY ==> r == MainAction::Ignore,
{
    if msg == WM_HOTKEY {
        let vk = HIWORD(lparam);
        on_hotkey(wparam, vk as u32)
    } else if msg == WM_DESTROY {
        MainAction::Quit
    } else {
        MainAction::Ignore
    }
}

/// The popup window's decision for one edit-box notification.  Escape
/// hides the popup; return accepts the query, if there is one, and clears
/// the box; a change of text announces a new search.
pub fn popup_notify(code: u32, text: Option<String>) -> (r: PopupAction)
    ensures
        code == MSG_NOTIFY_ESCAPE ==> r == PopupAction::Hide,
        code == MSG_NOTIFY_RETURN ==> r == (match text {
            Some(query) => PopupAction::EmitAndClear(PopupMsg::Accept(query)),
            None => PopupAction::Ignore,
        }),
        code == MSG_NOTIFY_CHAR ==> r == PopupAction::Emit(PopupMsg::Search(text)),
        code != MSG_NOTIFY_ESCAPE && code != MSG_NOTIFY_RETURN && code != MSG_NOTIFY_CHAR ==> r
            == PopupAction::Ignore,
{
    if code == MSG_NOTIFY_ESCAPE {
        PopupAction::Hide
    } else if code == MSG_NOTIFY_RETURN {
        match text {
            Some(query) => PopupAction::EmitAndClear(PopupMsg::Accept(query)),
            None => PopupAction::Ignore,
        }
    } else if code == MSG_NOTIFY_CHAR {
        PopupAction::Emit(PopupMsg::Search(text))
    } else {
        PopupAction::Ignore
    }
}

/// The popup window's decision for one key press: only escape acts, and it
/// hides the popup.
pub fn popup_keydown(vk: u32) -> (r: PopupAction)
    ensures
        r == if vk == VK_ESCAPE {
            PopupAction::Hide
        } else {
            PopupAction::Ignore
        },
{
    if vk == VK_ESCAPE {
        PopupAction::Hide
    } else {
        PopupAction::Ignore
    }
}

} // verus!
