use winman::messages::{
    main_window_message, on_hotkey, popup_keydown, popup_notify, AppMsg, MainAction, PopupAction,
    PopupMsg, HK_CLEAR, HK_GRAB, HK_POPUP, HK_QUIT, HK_SWITCH, MSG_NOTIFY_CHAR, MSG_NOTIFY_ESCAPE,
    MSG_NOTIFY_RETURN, VK_ESCAPE, WM_DESTROY, WM_HOTKEY,
};

#[test]
fn hotkey_ids_map_to_application_events() {
    assert_eq!(MainAction::Quit, on_hotkey(HK_QUIT, 0));
    assert_eq!(MainAction::Emit(AppMsg::ShowPopup), on_hotkey(HK_POPUP, 0x20));
    assert_eq!(MainAction::Emit(AppMsg::GrabWindow(0x33)), on_hotkey(HK_GRAB, 0x33));
    assert_eq!(MainAction::Emit(AppMsg::FocusWindow(0x34)), on_hotkey(HK_SWITCH, 0x34));
    assert_eq!(MainAction::Emit(AppMsg::ClearWindow(0x35)), on_hotkey(HK_CLEAR, 0x35));
    assert_eq!(MainAction::Ignore, on_hotkey(99, 0x35));
}

#[test]
fn hotkey_message_unpacks_the_virtual_key() {
    // The virtual key sits in the high word of lparam.
    let lparam = (0x31u32 << 16) | 0x0004;
    assert_eq!(
        MainAction::Emit(AppMsg::GrabWindow(0x31)),
        main_window_message(WM_HOTKEY, HK_GRAB, lparam),
    );
}

#[test]
fn destroy_message_quits() {
    assert_eq!(MainAction::Quit, main_window_message(WM_DESTROY, 0, 0));
    assert_eq!(MainAction::Ignore, main_window_message(0x0001, 0, 0));
}

#[test]
fn popup_notifications_drive_the_search() {
    assert_eq!(PopupAction::Hide, popup_notify(MSG_NOTIFY_ESCAPE, None));
    assert_eq!(
        PopupAction::EmitAndClear(PopupMsg::Accept("query".to_string())),
        popup_notify(MSG_NOTIFY_RETURN, Some("query".to_string())),
    );
    assert_eq!(PopupAction::Ignore, popup_notify(MSG_NOTIFY_RETURN, None));
    assert_eq!(
        PopupAction::Emit(PopupMsg::Search(Some("qu".to_string()))),
        popup_notify(MSG_NOTIFY_CHAR, Some("qu".to_string())),
    );
    assert_eq!(PopupAction::Ignore, popup_notify(77, None));
}

#[test]
fn only_escape_hides_the_popup_on_keydown() {
    assert_eq!(PopupAction::Hide, popup_keydown(VK_ESCAPE));
    assert_eq!(PopupAction::Ignore, popup_keydown(0x41));
}
