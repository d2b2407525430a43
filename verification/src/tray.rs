//! The notification-area menu: the state it is built from and the actions
//! its entries trigger.
use crate::app_rules::AppSelectionEntry;
use crate::settings_model::{DockEdge, ToolbarPosition, WindowGrouping};
use vstd::prelude::*;

verus! {

/// Everything the notification-area menu shows.
#[derive(Debug, Clone)]
pub struct TrayMenuState {
    pub window_visible: bool,
    pub minimize_to_tray: bool,
    pub close_to_tray: bool,
    pub refresh_interval_ms: u32,
    pub animate_transitions: bool,
    pub preserve_aspect_ratio: bool,
    pub hide_on_select: bool,
    pub always_on_top: bool,
    pub active_monitor_filter: Option<String>,
    pub available_monitors: Vec<String>,
    pub active_tag_filter: Option<String>,
    pub available_tags: Vec<String>,
    pub active_app_filter: Option<String>,
    pub available_apps: Vec<AppSelectionEntry>,
    pub hidden_apps: Vec<AppSelectionEntry>,
    pub dock_edge: Option<DockEdge>,
    pub is_docked: bool,
    pub show_toolbar: bool,
    pub show_window_info: bool,
    pub show_app_icons: bool,
    pub toolbar_position: ToolbarPosition,
    pub start_in_tray: bool,
    pub locked_layout: bool,
    pub lock_cell_resize: bool,
    pub group_windows_by: WindowGrouping,
    pub current_workspace: Option<String>,
    pub available_workspaces: Vec<String>,
}

/// What an entry of the notification-area menu asks for.
#[derive(Debug, Clone, PartialEq, Eq)]
pub enum TrayAction {
    Toggle,
    Refresh,
    NextLayout,
    ToggleMinimizeToTray,
    ToggleCloseToTray,
    CycleRefreshInterval,
    ToggleAnimateTransitions,
    ToggleDefaultAspectRatio,
    ToggleDefaultHideOnSelect,
    ToggleAlwaysOnTop,
    SetMonitorFilter(Option<String>),
    SetTagFilter(Option<String>),
    SetAppFilter(Option<String>),
    RestoreHidden(String),
    RestoreAllHidden,
    SetDockEdge(Option<DockEdge>),
    SetWindowGrouping(WindowGrouping),
    ToggleToolbar,
    ToggleWindowInfo,
    ToggleAppIcons,
    SetToolbarPosition(ToolbarPosition),
    ToggleStartInTray,
    ToggleLockedLayout,
    ToggleLockCellResize,
    OpenSettingsWindow,
    OpenAboutWindow,
    LoadWorkspace(Option<String>),
    Exit,
}

} // verus!
