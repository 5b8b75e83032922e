use winman::hotkeys::{HotkeyAction, MOD_APP, MOD_GRAB, MOD_SWITCH, VK_0, VK_Q};
use winman::layout::{calc_window_pos, HorizontalAlignment, VerticalAlignment};
use winman::tracking::{Config, Window, WindowSet};
use winman::ToCWStr;
use winman::{HotkeyManager, HIWORD, LOWORD, MAKEINTRESOURCEA, MAKEINTRESOURCEW};

#[test]
fn hotkey_bindings_cover_quit_grab_and_switch() {
    let manager = HotkeyManager::new();
    let bindings = manager.register_hotkeys();
    assert_eq!(19, bindings.len());
    assert_eq!((0, MOD_APP, VK_Q), bindings[0]);
    assert_eq!((1, MOD_GRAB, VK_0 + 1), bindings[1]);
    assert_eq!((2, MOD_SWITCH, VK_0 + 1), bindings[2]);
    assert_eq!((1, MOD_GRAB, VK_0 + 9), bindings[17]);
    assert_eq!((2, MOD_SWITCH, VK_0 + 9), bindings[18]);
}

#[test]
fn quit_hotkey_quits() {
    let mut manager = HotkeyManager::new();
    assert_eq!(HotkeyAction::Quit, manager.process_hotkey((MOD_APP, VK_Q), None));
}

#[test]
fn grab_then_switch_focuses_the_grabbed_window() {
    let mut manager = HotkeyManager::new();
    let vk = VK_0 + 3;
    assert_eq!(HotkeyAction::Idle, manager.process_hotkey((MOD_GRAB, vk), Some(77)));
    assert_eq!(HotkeyAction::Focus(77), manager.process_hotkey((MOD_SWITCH, vk), None));
}

#[test]
fn switch_without_grab_does_nothing() {
    let mut manager = HotkeyManager::new();
    assert_eq!(HotkeyAction::Idle, manager.process_hotkey((MOD_SWITCH, VK_0 + 5), None));
}

#[test]
fn grab_without_foreground_window_does_nothing() {
    let mut manager = HotkeyManager::new();
    let vk = VK_0 + 4;
    assert_eq!(HotkeyAction::Idle, manager.process_hotkey((MOD_GRAB, vk), None));
    assert_eq!(HotkeyAction::Idle, manager.process_hotkey((MOD_SWITCH, vk), None));
}

#[test]
fn unknown_modifiers_do_nothing() {
    let mut manager = HotkeyManager::new();
    assert_eq!(HotkeyAction::Idle, manager.process_hotkey((0x4000, VK_Q), Some(5)));
}

#[test]
fn message_words_come_apart() {
    assert_eq!(0x1234, HIWORD(0x12345678));
    assert_eq!(0x5678, LOWORD(0x12345678));
    assert_eq!(0, HIWORD(0xFFFF));
    assert_eq!(0xFFFF, LOWORD(0xFFFF));
}

#[test]
fn resource_identifiers_keep_the_low_word() {
    assert_eq!(103, MAKEINTRESOURCEA(103));
    assert_eq!(103, MAKEINTRESOURCEW(103));
    assert_eq!(5, MAKEINTRESOURCEA(0x10005));
}

#[test]
fn popup_is_centred_on_screen() {
    let bounds = calc_window_pos(
        (0, 0, 1920, 1080),
        Some(340),
        Some(50),
        None,
        None,
        HorizontalAlignment::Center,
        VerticalAlignment::Center,
    );
    assert_eq!((790, 515, 340, 50), bounds);
}

#[test]
fn edit_box_is_centred_with_padding() {
    let bounds = calc_window_pos(
        (0, 0, 340, 50),
        None,
        Some(22),
        None,
        Some((15, 0, 15, 0)),
        HorizontalAlignment::Center,
        VerticalAlignment::Center,
    );
    assert_eq!((15, 14, 310, 22), bounds);
}

#[test]
fn corner_alignments_reach_the_edges() {
    let parent = (0, 0, 100, 80);
    let top_left = calc_window_pos(
        parent,
        Some(10),
        Some(10),
        None,
        None,
        HorizontalAlignment::Left,
        VerticalAlignment::Top,
    );
    assert_eq!((0, 0, 10, 10), top_left);
    let bottom_right = calc_window_pos(
        parent,
        Some(10),
        Some(10),
        None,
        None,
        HorizontalAlignment::Right,
        VerticalAlignment::Bottom,
    );
    assert_eq!((90, 70, 10, 10), bottom_right);
}

#[test]
fn window_keeps_handle_and_title() {
    let window = Window::new(42, "Notepad".to_string());
    assert_eq!(42, window.hwnd());
    assert_eq!(Some("Notepad"), window.title());
}

#[test]
fn window_set_deduplicates_by_handle() {
    let mut set = WindowSet::new();
    set.add(Window::new(1, "one".to_string()));
    set.add(Window::new(2, "two".to_string()));
    set.add(Window::new(1, "one again".to_string()));
    // The duplicate was not added: cycling through the set visits exactly
    // two windows.
    let first = set.cycle().unwrap();
    let second = set.cycle().unwrap();
    let third = set.cycle().unwrap();
    assert_eq!(1, first.hwnd());
    assert_eq!(2, second.hwnd());
    assert_eq!(1, third.hwnd());
}

#[test]
fn window_set_cycle_rotates_oldest_to_front() {
    let mut set = WindowSet::new();
    set.add(Window::new(1, "one".to_string()));
    set.add(Window::new(2, "two".to_string()));
    // Front is the newest (2); cycling brings the oldest (1) to the front.
    assert_eq!(1, set.cycle().unwrap().hwnd());
    assert_eq!(2, set.cycle().unwrap().hwnd());
    assert_eq!(1, set.cycle().unwrap().hwnd());
}

#[test]
fn empty_window_set_cycles_to_nothing() {
    let mut set = WindowSet::new();
    assert!(set.cycle().is_none());
}

#[test]
fn window_set_remove_takes_out_the_matching_handle() {
    let mut set = WindowSet::new();
    set.add(Window::new(1, "one".to_string()));
    set.add(Window::new(2, "two".to_string()));
    let removed = set.remove(&Window::new(1, "anything".to_string()));
    assert_eq!(1, removed.unwrap().hwnd());
    assert!(set.remove(&Window::new(1, "anything".to_string())).is_none());
    assert_eq!(2, set.cycle().unwrap().hwnd());
}

#[test]
fn config_tracks_and_clears_windows_per_key() {
    let mut config = Config::new();
    config.track_window(3, Window::new(10, "ten".to_string()));
    config.track_window(3, Window::new(11, "eleven".to_string()));
    config.track_window(4, Window::new(20, "twenty".to_string()));
    assert!(config.get_windows(3).is_some());
    assert!(config.get_windows(5).is_none());
    assert_eq!(10, config.cycle_windows(3).unwrap().hwnd());
    assert_eq!(20, config.cycle_windows(4).unwrap().hwnd());
    assert!(config.cycle_windows(5).is_none());
    config.clear_windows(3);
    assert!(config.get_windows(3).is_none());
    assert!(config.cycle_windows(3).is_none());
}

#[test]
fn config_removes_windows_that_cannot_be_focused() {
    let mut config = Config::new();
    config.track_window(7, Window::new(1, "one".to_string()));
    config.track_window(7, Window::new(2, "two".to_string()));
    let gone = config.remove_window(7, &Window::new(2, "ignored".to_string()));
    assert_eq!(2, gone.unwrap().hwnd());
    assert!(config.remove_window(7, &Window::new(2, "ignored".to_string())).is_none());
    assert_eq!(1, config.cycle_windows(7).unwrap().hwnd());
}

#[test]
fn wide_string_of_borrowed_text_has_no_terminator() {
    assert_eq!(vec![65u16, 66, 67], "ABC".to_c_wstr());
    assert_eq!(Vec::<u16>::new(), "".to_c_wstr());
}

#[test]
fn wide_string_of_owned_text_is_zero_terminated() {
    assert_eq!(vec![104u16, 105, 0], String::from("hi").to_c_wstr());
    assert_eq!(vec![0u16], String::new().to_c_wstr());
}

#[test]
fn wide_string_encodes_surrogate_pairs() {
    assert_eq!(vec![0x20ACu16], "\u{20AC}".to_c_wstr());
    assert_eq!(vec![0xD834u16, 0xDD1E], "\u{1D11E}".to_c_wstr());
}

#[test]
fn wide_chars_end_with_the_terminator() {
    assert_eq!(vec![104u16, 105, 0], winman::wstr::to_wide_chars("hi"));
    assert_eq!(vec![0u16], winman::wstr::to_wide_chars(""));
}
