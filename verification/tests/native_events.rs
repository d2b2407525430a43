use panopticon::native_events::{
    is_activate_hotkey, is_blocked_dock_syscommand, is_repeated_key, route_native_message,
    NativeDispatch, NativeEvent, NativeMessage, NativeRoute, ABN_POSCHANGED,
    GLOBAL_ACTIVATE_HOTKEY_ID, KEY_REPEAT_LPARAM_MASK, SC_CLOSE, SC_MOVE, SIZE_MINIMIZED,
    VK_F1, WM_CLOSE, WM_DISPLAYCHANGE, WM_HOTKEY, WM_KEYDOWN, WM_LBUTTONUP, WM_MBUTTONDOWN,
    WM_MBUTTONUP, WM_MOUSEMOVE, WM_MOUSEWHEEL, WM_RBUTTONUP, WM_SHOWWINDOW, WM_SIZE,
    WM_SYSCOMMAND, WM_SYSKEYDOWN, WM_TRAYICON,
};

const TASKBAR_CREATED: u32 = 0x8001;
const APPBAR_CALLBACK: u32 = 0x8002;

fn msg(msg: u32, wparam: usize, lparam: isize) -> NativeMessage {
    NativeMessage { hwnd: 1, msg, wparam, lparam }
}

#[test]
fn routes_hotkeys_without_repeats() {
    assert_eq!(
        route_native_message(
            msg(WM_HOTKEY, GLOBAL_ACTIVATE_HOTKEY_ID as usize, 0),
            TASKBAR_CREATED,
            APPBAR_CALLBACK,
            false,
            false,
        ),
        NativeRoute::handled(NativeEvent::ActivateHotkey)
    );
    assert_eq!(
        route_native_message(msg(WM_KEYDOWN, VK_F1 as usize, 0), 0, APPBAR_CALLBACK, false, false),
        NativeRoute::handled(NativeEvent::OpenAboutHotkey)
    );
    assert_eq!(
        route_native_message(
            msg(WM_KEYDOWN, VK_F1 as usize, KEY_REPEAT_LPARAM_MASK),
            0,
            APPBAR_CALLBACK,
            false,
            false,
        ),
        NativeRoute::forward(None)
    );
}

#[test]
fn routes_tray_and_appbar_messages() {
    assert_eq!(
        route_native_message(
            msg(WM_TRAYICON, 0, WM_LBUTTONUP as isize),
            0,
            APPBAR_CALLBACK,
            false,
            false
        ),
        NativeRoute::handled(NativeEvent::TrayIcon { mouse_msg: WM_LBUTTONUP })
    );
    assert_eq!(
        route_native_message(
            msg(WM_TRAYICON, 0, WM_RBUTTONUP as isize),
            0,
            APPBAR_CALLBACK,
            false,
            false
        ),
        NativeRoute::handled(NativeEvent::TrayIcon { mouse_msg: WM_RBUTTONUP })
    );
    assert_eq!(
        route_native_message(
            msg(APPBAR_CALLBACK, ABN_POSCHANGED as usize, 0),
            0,
            APPBAR_CALLBACK,
            true,
            false,
        ),
        NativeRoute::handled(NativeEvent::AppbarPositionChanged)
    );
    assert_eq!(
        route_native_message(msg(APPBAR_CALLBACK, 99, 0), 0, APPBAR_CALLBACK, true, false),
        NativeRoute { event: None, dispatch: NativeDispatch::Handled }
    );
    assert_eq!(
        route_native_message(
            msg(TASKBAR_CREATED, 0, 0),
            TASKBAR_CREATED,
            APPBAR_CALLBACK,
            false,
            false,
        ),
        NativeRoute::forward(Some(NativeEvent::TaskbarCreated))
    );
}

#[test]
fn routes_dock_surface_and_blocked_syscommands_conditionally() {
    assert_eq!(
        route_native_message(msg(WM_DISPLAYCHANGE, 0, 0), 0, APPBAR_CALLBACK, true, false),
        NativeRoute::forward(Some(NativeEvent::DockSurfaceChanged))
    );
    assert_eq!(
        route_native_message(msg(WM_DISPLAYCHANGE, 0, 0), 0, APPBAR_CALLBACK, false, false),
        NativeRoute::forward(None)
    );
    assert_eq!(
        route_native_message(
            msg(WM_SYSCOMMAND, SC_MOVE as usize, 0),
            0,
            APPBAR_CALLBACK,
            true,
            false
        ),
        NativeRoute::handled(NativeEvent::BlockDockSysCommand)
    );
}

#[test]
fn routes_window_lifecycle_and_pan_messages() {
    assert_eq!(
        route_native_message(msg(WM_CLOSE, 0, 0), 0, APPBAR_CALLBACK, false, false),
        NativeRoute::handled(NativeEvent::CloseRequested)
    );
    assert_eq!(
        route_native_message(msg(WM_SIZE, SIZE_MINIMIZED, 0), 0, APPBAR_CALLBACK, false, false),
        NativeRoute::forward(Some(NativeEvent::MinimizeRequested))
    );
    assert_eq!(
        route_native_message(msg(WM_SHOWWINDOW, 1, 0), 0, APPBAR_CALLBACK, false, false),
        NativeRoute::forward(Some(NativeEvent::WindowShown))
    );
    assert_eq!(
        route_native_message(msg(WM_MOUSEMOVE, 0, 0), 0, APPBAR_CALLBACK, false, true),
        NativeRoute::handled(NativeEvent::MiddlePanMove { middle_button_down: false })
    );
    assert_eq!(
        route_native_message(msg(WM_MOUSEMOVE, 0, 0), 0, APPBAR_CALLBACK, false, false),
        NativeRoute::forward(None)
    );
    assert_eq!(
        route_native_message(msg(WM_SHOWWINDOW, 0, 0), 0, APPBAR_CALLBACK, false, false),
        NativeRoute::forward(Some(NativeEvent::WindowHidden))
    );
    assert_eq!(
        route_native_message(msg(WM_MBUTTONDOWN, 0, 0), 0, APPBAR_CALLBACK, false, false),
        NativeRoute::handled(NativeEvent::MiddlePanStart)
    );
    assert_eq!(
        route_native_message(msg(WM_MBUTTONUP, 0, 0), 0, APPBAR_CALLBACK, false, true),
        NativeRoute::handled(NativeEvent::MiddlePanEnd)
    );
    assert_eq!(
        route_native_message(msg(WM_MOUSEWHEEL, 0, 0), 0, APPBAR_CALLBACK, false, false),
        NativeRoute::handled(NativeEvent::Wheel)
    );
}

#[test]
fn undocked_syscommands_and_repeated_alt_are_forwarded() {
    assert_eq!(
        route_native_message(msg(WM_SYSCOMMAND, SC_CLOSE as usize, 0), 0, APPBAR_CALLBACK, false, false),
        NativeRoute::forward(None)
    );
    assert_eq!(
        route_native_message(msg(WM_SYSKEYDOWN, 0x12, 0), 0, APPBAR_CALLBACK, false, false),
        NativeRoute::handled(NativeEvent::ToggleToolbarHotkey)
    );
    assert_eq!(
        route_native_message(
            msg(WM_SYSKEYDOWN, 0x12, KEY_REPEAT_LPARAM_MASK),
            0,
            APPBAR_CALLBACK,
            false,
            false
        ),
        NativeRoute::forward(None)
    );
}

#[test]
fn middle_button_state_is_read_from_wparam() {
    assert_eq!(
        route_native_message(msg(WM_MOUSEMOVE, 0x0010, 0), 0, APPBAR_CALLBACK, false, true),
        NativeRoute::handled(NativeEvent::MiddlePanMove { middle_button_down: true })
    );
}

#[test]
fn message_predicates() {
    assert!(is_activate_hotkey(GLOBAL_ACTIVATE_HOTKEY_ID as usize));
    assert!(!is_activate_hotkey(1));
    assert!(is_repeated_key(KEY_REPEAT_LPARAM_MASK));
    assert!(!is_repeated_key(1));
    assert!(is_blocked_dock_syscommand(SC_MOVE as usize + 2));
    assert!(!is_blocked_dock_syscommand(0));
}
