//! Routing of native window messages intercepted by the dashboard's window
//! procedure into dashboard events.
use vstd::prelude::*;

verus! {

/// First message number reserved for application-private messages.
pub const WM_APP: u32 = 0x8000;
/// Notification icon callback message of the dashboard's tray icon.
pub const WM_TRAYICON: u32 = 0x8001;
/// Window message numbers and command codes of the Win32 API.
pub const WM_SIZE: u32 = 0x0005;
pub const WM_CLOSE: u32 = 0x0010;
pub const WM_SHOWWINDOW: u32 = 0x0018;
pub const WM_SETTINGCHANGE: u32 = 0x001A;
pub const WM_WINDOWPOSCHANGED: u32 = 0x0047;
pub const WM_DISPLAYCHANGE: u32 = 0x007E;
pub const WM_KEYDOWN: u32 = 0x0100;
pub const WM_SYSKEYDOWN: u32 = 0x0104;
pub const WM_SYSCOMMAND: u32 = 0x0112;
pub const WM_MOUSEMOVE: u32 = 0x0200;
pub const WM_LBUTTONUP: u32 = 0x0202;
pub const WM_RBUTTONUP: u32 = 0x0205;
pub const WM_MBUTTONDOWN: u32 = 0x0207;
pub const WM_MBUTTONUP: u32 = 0x0208;
pub const WM_MOUSEWHEEL: u32 = 0x020A;
pub const WM_DPICHANGED: u32 = 0x02E0;
pub const WM_HOTKEY: u32 = 0x0312;
pub const VK_F1: u32 = 0x70;
pub const ABN_POSCHANGED: u32 = 1;
pub const SC_SIZE: u32 = 0xF000;
pub const SC_MOVE: u32 = 0xF010;
pub const SC_MINIMIZE: u32 = 0xF020;
pub const SC_MAXIMIZE: u32 = 0xF030;
pub const SC_CLOSE: u32 = 0xF060;

/// Identifier of the dashboard's global activation hotkey.
pub const GLOBAL_ACTIVATE_HOTKEY_ID: i32 = 0x5041;

/// Virtual key of the Alt key.
pub const ALT_VIRTUAL_KEY: u32 = 0x12;
/// Bit of a key message's `lparam` that marks an auto-repeated key.
pub const KEY_REPEAT_LPARAM_MASK: isize = 0x4000_0000;
/// `wparam` of a size message when the window was minimized.
pub const SIZE_MINIMIZED: usize = 1;
/// Bit of a mouse message's `wparam` set while the middle button is down.
pub const MOUSE_MIDDLE_BUTTON_WPARAM: usize = 0x0010;

/// A native window message as delivered to the window procedure.
#[derive(Debug, Clone, Copy)]
pub struct NativeMessage {
    pub hwnd: isize,
    pub msg: u32,
    pub wparam: usize,
    pub lparam: isize,
}

/// Whether the dashboard consumed a message or passes it on to the default
/// procedure.
#[derive(Debug, Clone, Copy, PartialEq, Eq, Structural)]
pub enum NativeDispatch {
    Handled,
    Forward,
}

/// Dashboard event recognised in a native message.
#[derive(Debug, Clone, Copy, PartialEq, Eq, Structural)]
pub enum NativeEvent {
    TaskbarCreated,
    TrayIcon { mouse_msg: u32 },
    ActivateHotkey,
    OpenAboutHotkey,
    ToggleToolbarHotkey,
    AppbarPositionChanged,
    DockSurfaceChanged,
    BlockDockSysCommand,
    CloseRequested,
    MinimizeRequested,
    WindowShown,
    WindowHidden,
    MiddlePanStart,
    MiddlePanEnd,
    MiddlePanMove { middle_button_down: bool },
    Wheel,
}

/// The event of a message, if any, and how the message is dispatched.
#[derive(Debug, Clone, Copy, PartialEq, Eq, Structural)]
pub struct NativeRoute {
    pub event: Option<NativeEvent>,
    pub dispatch: NativeDispatch,
}

impl NativeRoute {
    /// A route that consumes the message after raising `event`.
    pub fn handled(event: NativeEvent) -> (r: Self)
        ensures
            r == (NativeRoute { event: Some(event), dispatch: NativeDispatch::Handled }),
    {
        NativeRoute { event: Some(event), dispatch: NativeDispatch::Handled }
    }

    /// A route that passes the message on after raising `event`, if any.
    pub fn forward(event: Option<NativeEvent>) -> (r: Self)
        ensures
            r == (NativeRoute { event, dispatch: NativeDispatch::Forward }),
    {
        NativeRoute { event, dispatch: NativeDispatch::Forward }
    }
}

/// A hotkey message carries the dashboard's activation hotkey identifier in
/// the low 32 bits of its `wparam`.
pub open spec fn is_activate_hotkey_spec(id: usize) -> bool {
    (id as i32) == GLOBAL_ACTIVATE_HOTKEY_ID
}

/// A key message reports an auto-repeated key.
pub open spec fn is_repeated_key_spec(lparam: isize) -> bool {
    lparam & KEY_REPEAT_LPARAM_MASK != 0
}

/// A system command (ignoring its low four bits) moves, sizes, minimizes,
/// maximizes or closes the window.
pub open spec fn is_blocked_dock_syscommand_spec(command: usize) -> bool {
    let masked = command & 0xFFF0;
    masked == SC_MOVE as usize || masked == SC_SIZE as usize || masked == SC_MINIMIZE as usize
        || masked == SC_MAXIMIZE as usize || masked == SC_CLOSE as usize
}

/// The route of a native message. Checks are made in order: the taskbar
/// re-creation message (when registered, that is non-zero), the tray icon
/// callback, the activation hotkey, F1 and Alt presses that are not
/// auto-repeats, the app-bar callback, display and position changes, blocked
/// system commands while docked, close, minimize, show and hide, and middle
/// button panning; any other message is passed on without an event.
pub open spec fn route_spec(
    m: NativeMessage,
    taskbar_created_msg: u32,
    appbar_callback_msg: u32,
    docked: bool,
    pan_active: bool,
) -> NativeRoute {
    let handled = |e: NativeEvent| NativeRoute { event: Some(e), dispatch: NativeDispatch::Handled };
    let forward = |e: Option<NativeEvent>| NativeRoute { event: e, dispatch: NativeDispatch::Forward };
    if taskbar_created_msg != 0 && m.msg == taskbar_created_msg {
        forward(Some(NativeEvent::TaskbarCreated))
    } else if m.msg == WM_TRAYICON {
        handled(NativeEvent::TrayIcon { mouse_msg: m.lparam as u32 })
    } else if m.msg == WM_HOTKEY && is_activate_hotkey_spec(m.wparam) {
        handled(NativeEvent::ActivateHotkey)
    } else if m.msg == WM_KEYDOWN && m.wparam as u32 == VK_F1 && !is_repeated_key_spec(m.lparam) {
        handled(NativeEvent::OpenAboutHotkey)
    } else if m.msg == WM_SYSKEYDOWN && m.wparam as u32 == ALT_VIRTUAL_KEY && !is_repeated_key_spec(
        m.lparam,
    ) {
        handled(NativeEvent::ToggleToolbarHotkey)
    } else if m.msg == appbar_callback_msg {
        NativeRoute {
            event: if m.wparam as u32 == ABN_POSCHANGED {
                Some(NativeEvent::AppbarPositionChanged)
            } else {
                None
            },
            dispatch: NativeDispatch::Handled,
        }
    } else if m.msg == WM_WINDOWPOSCHANGED || m.msg == WM_DISPLAYCHANGE || m.msg == WM_DPICHANGED
        || m.msg == WM_SETTINGCHANGE {
        forward(
            if docked {
                Some(NativeEvent::DockSurfaceChanged)
            } else {
                None
            },
        )
    } else if m.msg == WM_SYSCOMMAND && docked && is_blocked_dock_syscommand_spec(m.wparam) {
        handled(NativeEvent::BlockDockSysCommand)
    } else if m.msg == WM_CLOSE {
        handled(NativeEvent::CloseRequested)
    } else if m.msg == WM_SIZE && m.wparam == SIZE_MINIMIZED {
        forward(Some(NativeEvent::MinimizeRequested))
    } else if m.msg == WM_SHOWWINDOW && m.wparam != 0 {
        forward(Some(NativeEvent::WindowShown))
    } else if m.msg == WM_SHOWWINDOW {
        forward(Some(NativeEvent::WindowHidden))
    } else if m.msg == WM_MBUTTONDOWN {
        handled(NativeEvent::MiddlePanStart)
    } else if m.msg == WM_MOUSEWHEEL {
        handled(NativeEvent::Wheel)
    } else if m.msg == WM_MBUTTONUP {
        handled(NativeEvent::MiddlePanEnd)
    } else if m.msg == WM_MOUSEMOVE && pan_active {
        handled(
            NativeEvent::MiddlePanMove {
                middle_button_down: m.wparam & MOUSE_MIDDLE_BUTTON_WPARAM != 0,
            },
        )
    } else {
        forward(None)
    }
}

/// The message is the registered taskbar re-creation message.
pub open spec fn is_taskbar_created(msg: u32, taskbar_created_msg: u32) -> bool {
    taskbar_created_msg != 0 && msg == taskbar_created_msg
}

/// What each message does, message by message, when neither registered
/// message (the taskbar re-creation message and the app-bar callback) claims
/// it first:
/// - the taskbar re-creation message raises `TaskbarCreated` and is passed on;
/// - tray icon callbacks, the activation hotkey, a fresh F1 press and a fresh
///   Alt press are consumed with their events;
/// - the app-bar callback is consumed, raising `AppbarPositionChanged` for a
///   position change;
/// - position, display, DPI and system-setting changes are passed on, raising
///   `DockSurfaceChanged` while docked;
/// - while docked, moving, sizing, minimizing, maximizing and closing system
///   commands are consumed;
/// - close requests are consumed; minimizing, showing and hiding are passed on
///   with their events;
/// - middle-button and wheel messages are consumed, and mouse moves are while
///   panning;
/// - every other message is passed on with no event.
pub proof fn lemma_route_by_message(
    m: NativeMessage,
    taskbar_created_msg: u32,
    appbar_callback_msg: u32,
    docked: bool,
    pan_active: bool,
)
    ensures
        ({
            let r = route_spec(m, taskbar_created_msg, appbar_callback_msg, docked, pan_active);
            let tb = is_taskbar_created(m.msg, taskbar_created_msg);
            let registered = tb || m.msg == appbar_callback_msg;
            let forward_none = NativeRoute { event: None, dispatch: NativeDispatch::Forward };
            &&& tb ==> r == NativeRoute {
                event: Some(NativeEvent::TaskbarCreated),
                dispatch: NativeDispatch::Forward,
            }
            &&& !tb && m.msg == 0x8001 ==> r == NativeRoute {
                event: Some(NativeEvent::TrayIcon { mouse_msg: m.lparam as u32 }),
                dispatch: NativeDispatch::Handled,
            }
            &&& !tb && m.msg == 0x0312 && (m.wparam as i32) == 0x5041 ==> r == NativeRoute {
                event: Some(NativeEvent::ActivateHotkey),
                dispatch: NativeDispatch::Handled,
            }
            &&& !tb && m.msg == 0x0100 && m.wparam as u32 == 0x70 && m.lparam & 0x4000_0000 == 0
                ==> r == NativeRoute {
                event: Some(NativeEvent::OpenAboutHotkey),
                dispatch: NativeDispatch::Handled,
            }
            &&& !tb && m.msg == 0x0104 && m.wparam as u32 == 0x12 && m.lparam & 0x4000_0000 == 0
                ==> r == NativeRoute {
                event: Some(NativeEvent::ToggleToolbarHotkey),
                dispatch: NativeDispatch::Handled,
            }
            &&& !tb && m.msg == appbar_callback_msg && m.msg != 0x8001 && m.msg != 0x0312
                && m.msg != 0x0100 && m.msg != 0x0104 ==> r == NativeRoute {
                event: if m.wparam as u32 == 1 {
                    Some(NativeEvent::AppbarPositionChanged)
                } else {
                    None
                },
                dispatch: NativeDispatch::Handled,
            }
            &&& !registered && (m.msg == 0x0047 || m.msg == 0x007E || m.msg == 0x02E0 || m.msg
                == 0x001A) ==> r == NativeRoute {
                event: if docked {
                    Some(NativeEvent::DockSurfaceChanged)
                } else {
                    None
                },
                dispatch: NativeDispatch::Forward,
            }
            &&& !registered && m.msg == 0x0112 ==> r == if docked && ((m.wparam & 0xFFF0)
                == 0xF000 || (m.wparam & 0xFFF0) == 0xF010 || (m.wparam & 0xFFF0) == 0xF020 || (
            m.wparam & 0xFFF0) == 0xF030 || (m.wparam & 0xFFF0) == 0xF060) {
                NativeRoute {
                    event: Some(NativeEvent::BlockDockSysCommand),
                    dispatch: NativeDispatch::Handled,
                }
            } else {
                forward_none
            }
            &&& !registered && m.msg == 0x0010 ==> r == NativeRoute {
                event: Some(NativeEvent::CloseRequested),
                dispatch: NativeDispatch::Handled,
            }
            &&& !registered && m.msg == 0x0005 ==> r == if m.wparam == 1 {
                NativeRoute {
                    event: Some(NativeEvent::MinimizeRequested),
                    dispatch: NativeDispatch::Forward,
                }
            } else {
                forward_none
            }
            &&& !registered && m.msg == 0x0018 ==> r == NativeRoute {
                event: Some(
                    if m.wparam != 0 {
                        NativeEvent::WindowShown
                    } else {
                        NativeEvent::WindowHidden
                    },
                ),
                dispatch: NativeDispatch::Forward,
            }
            &&& !registered && m.msg == 0x0207 ==> r == NativeRoute {
                event: Some(NativeEvent::MiddlePanStart),
                dispatch: NativeDispatch::Handled,
            }
            &&& !registered && m.msg == 0x020A ==> r == NativeRoute {
                event: Some(NativeEvent::Wheel),
                dispatch: NativeDispatch::Handled,
            }
            &&& !registered && m.msg == 0x0208 ==> r == NativeRoute {
                event: Some(NativeEvent::MiddlePanEnd),
                dispatch: NativeDispatch::Handled,
            }
            &&& !registered && m.msg == 0x0200 ==> r == if pan_active {
                NativeRoute {
                    event: Some(
                        NativeEvent::MiddlePanMove { middle_button_down: m.wparam & 0x0010 != 0 },
                    ),
                    dispatch: NativeDispatch::Handled,
                }
            } else {
                forward_none
            }
            &&& !registered && (m.msg == 0x0312 && (m.wparam as i32) != 0x5041 || (m.msg == 0x0100
                && (m.wparam as u32 != 0x70 || m.lparam & 0x4000_0000 != 0)) || (m.msg == 0x0104
                && (m.wparam as u32 != 0x12 || m.lparam & 0x4000_0000 != 0))) ==> r == forward_none
            &&& !registered && m.msg != 0x8001 && m.msg != 0x0312 && m.msg != 0x0100 && m.msg
                != 0x0104 && m.msg != 0x0047 && m.msg != 0x007E && m.msg != 0x02E0 && m.msg
                != 0x001A && m.msg != 0x0112 && m.msg != 0x0010 && m.msg != 0x0005 && m.msg
                != 0x0018 && m.msg != 0x0207 && m.msg != 0x020A && m.msg != 0x0208 && m.msg
                != 0x0200 ==> r == forward_none
        }),
{
}

/// Whether a hotkey identifier is the dashboard's activation hotkey.
pub fn is_activate_hotkey(id: usize) -> (r: bool)
    ensures
        r == is_activate_hotkey_spec(id),
{
    id as i32 == GLOBAL_ACTIVATE_HOTKEY_ID
}

/// Whether a key message reports an auto-repeated key.
pub fn is_repeated_key(lparam: isize) -> (r: bool)
    ensures
        r == is_repeated_key_spec(lparam),
{
    lparam & KEY_REPEAT_LPARAM_MASK != 0
}

/// Whether a system command must be blocked while the dashboard is docked.
pub fn is_blocked_dock_syscommand(command: usize) -> (r: bool)
    ensures
        r == is_blocked_dock_syscommand_spec(command),
{
    let masked = command & 0xFFF0;
    masked == SC_MOVE as usize || masked == SC_SIZE as usize || masked == SC_MINIMIZE as usize
        || masked == SC_MAXIMIZE as usize || masked == SC_CLOSE as usize
}

/// Routes a native message to a dashboard event and a dispatch decision.
pub fn route_native_message(
    message: NativeMessage,
    taskbar_created_msg: u32,
    appbar_callback_msg: u32,
    docked: bool,
    pan_active: bool,
) -> (r: NativeRoute)
    ensures
        r == route_spec(message, taskbar_created_msg, appbar_callback_msg, docked, pan_active),
{
    let msg = message.msg;
    if taskbar_created_msg != 0 && msg == taskbar_created_msg {
        return NativeRoute::forward(Some(NativeEvent::TaskbarCreated));
    }
    if msg == WM_TRAYICON {
        NativeRoute::handled(NativeEvent::TrayIcon { mouse_msg: message.lparam as u32 })
    } else if msg == WM_HOTKEY && is_activate_hotkey(message.wparam) {
        NativeRoute::handled(NativeEvent::ActivateHotkey)
    } else if msg == WM_KEYDOWN && message.wparam as u32 == VK_F1 && !is_repeated_key(
        message.lparam,
    ) {
        NativeRoute::handled(NativeEvent::OpenAboutHotkey)
    } else if msg == WM_SYSKEYDOWN && message.wparam as u32 == ALT_VIRTUAL_KEY && !is_repeated_key(
        message.lparam,
    ) {
        NativeRoute::handled(NativeEvent::ToggleToolbarHotkey)
    } else if msg == appbar_callback_msg {
        let event = if message.wparam as u32 == ABN_POSCHANGED {
            Some(NativeEvent::AppbarPositionChanged)
        } else {
            None
        };
        NativeRoute { event, dispatch: NativeDispatch::Handled }
    } else if msg == WM_WINDOWPOSCHANGED || msg == WM_DISPLAYCHANGE || msg == WM_DPICHANGED || msg
        == WM_SETTINGCHANGE {
        NativeRoute::forward(
            if docked {
                Some(NativeEvent::DockSurfaceChanged)
            } else {
                None
            },
        )
    } else if msg == WM_SYSCOMMAND && docked && is_blocked_dock_syscommand(message.wparam) {
        NativeRoute::handled(NativeEvent::BlockDockSysCommand)
    } else if msg == WM_CLOSE {
        NativeRoute::handled(NativeEvent::CloseRequested)
    } else if msg == WM_SIZE && message.wparam == SIZE_MINIMIZED {
        NativeRoute::forward(Some(NativeEvent::MinimizeRequested))
    } else if msg == WM_SHOWWINDOW && message.wparam != 0 {
        NativeRoute::forward(Some(NativeEvent::WindowShown))
    } else if msg == WM_SHOWWINDOW {
        NativeRoute::forward(Some(NativeEvent::WindowHidden))
    } else if msg == WM_MBUTTONDOWN {
        NativeRoute::handled(NativeEvent::MiddlePanStart)
    } else if msg == WM_MOUSEWHEEL {
        NativeRoute::handled(NativeEvent::Wheel)
    } else if msg == WM_MBUTTONUP {
        NativeRoute::handled(NativeEvent::MiddlePanEnd)
    } else if msg == WM_MOUSEMOVE && pan_active {
        NativeRoute::handled(
            NativeEvent::MiddlePanMove {
                middle_button_down: message.wparam & MOUSE_MIDDLE_BUTTON_WPARAM != 0,
            },
        )
    } else {
        NativeRoute::forward(None)
    }
}

} // verus!
