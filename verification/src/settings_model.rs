//! Settings enumerations and their positions in the settings window's
//! drop-down lists.
use vstd::prelude::*;

verus! {

/// Arrangement of thumbnails on the dashboard.
#[derive(Debug, Clone, Copy, PartialEq, Eq, Structural)]
pub enum LayoutType {
    Grid,
    Mosaic,
    Bento,
    Fibonacci,
    Columns,
    Row,
    Column,
}

/// Screen edge the dashboard docks to.
#[derive(Debug, Clone, Copy, PartialEq, Eq, Structural)]
pub enum DockEdge {
    Left,
    Right,
    Top,
    Bottom,
}

/// How thumbnails are grouped.
#[derive(Debug, Clone, Copy, PartialEq, Eq, Structural)]
pub enum WindowGrouping {
    Ungrouped,
    Application,
    Monitor,
    WindowTitle,
    ClassName,
}

/// How a background image is fitted to the dashboard.
#[derive(Debug, Clone, Copy, PartialEq, Eq, Structural)]
pub enum BackgroundImageFit {
    Cover,
    Contain,
    Fill,
    Preserve,
}

/// Where the toolbar is shown.
#[derive(Debug, Clone, Copy, PartialEq, Eq, Structural)]
pub enum ToolbarPosition {
    Top,
    Bottom,
}

/// Global refresh cadence of the dashboard.
#[derive(Debug, Clone, Copy, PartialEq, Eq, Structural)]
pub enum RefreshPerformanceMode {
    Realtime,
    Balanced,
    BatterySaver,
    Manual,
}

/// Per-application thumbnail refresh behaviour.
#[derive(Debug, Clone, Copy, PartialEq, Eq, Structural)]
pub enum ThumbnailRefreshMode {
    Realtime,
    Frozen,
    Interval,
}

/// User interface language.
#[derive(Debug, Clone, Copy, PartialEq, Eq, Structural)]
pub enum Locale {
    English,
    Spanish,
}

/// Drop-down position of a layout.
pub open spec fn layout_index(layout: LayoutType) -> i32 {
    match layout {
        LayoutType::Grid => 0,
        LayoutType::Mosaic => 1,
        LayoutType::Bento => 2,
        LayoutType::Fibonacci => 3,
        LayoutType::Columns => 4,
        LayoutType::Row => 5,
        LayoutType::Column => 6,
    }
}

/// Value at a drop-down position of a layout; unknown positions select the grid.
pub open spec fn layout_at(index: i32) -> LayoutType {
    match index {
        1 => LayoutType::Mosaic,
        2 => LayoutType::Bento,
        3 => LayoutType::Fibonacci,
        4 => LayoutType::Columns,
        5 => LayoutType::Row,
        6 => LayoutType::Column,
        _ => LayoutType::Grid,
    }
}

/// Drop-down position of a layout.
pub fn layout_to_index(layout: LayoutType) -> (r: i32)
    ensures
        r == layout_index(layout),
{
    match layout {
        LayoutType::Grid => 0,
        LayoutType::Mosaic => 1,
        LayoutType::Bento => 2,
        LayoutType::Fibonacci => 3,
        LayoutType::Columns => 4,
        LayoutType::Row => 5,
        LayoutType::Column => 6,
    }
}

/// Value at a drop-down position of a layout; unknown positions select the grid.
pub fn index_to_layout(index: i32) -> (r: LayoutType)
    ensures
        r == layout_at(index),
{
    match index {
        1 => LayoutType::Mosaic,
        2 => LayoutType::Bento,
        3 => LayoutType::Fibonacci,
        4 => LayoutType::Columns,
        5 => LayoutType::Row,
        6 => LayoutType::Column,
        _ => LayoutType::Grid,
    }
}

/// Every value of a layout survives the round trip through its drop-down position.
pub proof fn lemma_layout_index_roundtrip(layout: LayoutType)
    ensures
        layout_at(layout_index(layout)) == layout,
{
}

/// Drop-down position of a dock edge (position 0 means not docked).
pub open spec fn dock_edge_index(edge: Option<DockEdge>) -> i32 {
    match edge {
        None => 0,
        Some(DockEdge::Left) => 1,
        Some(DockEdge::Right) => 2,
        Some(DockEdge::Top) => 3,
        Some(DockEdge::Bottom) => 4,
    }
}

/// Value at a drop-down position of a dock edge (position 0 means not docked); unknown positions select no dock edge.
pub open spec fn dock_edge_at(index: i32) -> Option<DockEdge> {
    match index {
        1 => Some(DockEdge::Left),
        2 => Some(DockEdge::Right),
        3 => Some(DockEdge::Top),
        4 => Some(DockEdge::Bottom),
        _ => None,
    }
}

/// Drop-down position of a dock edge (position 0 means not docked).
pub fn dock_edge_to_index(edge: Option<DockEdge>) -> (r: i32)
    ensures
        r == dock_edge_index(edge),
{
    match edge {
        None => 0,
        Some(DockEdge::Left) => 1,
        Some(DockEdge::Right) => 2,
        Some(DockEdge::Top) => 3,
        Some(DockEdge::Bottom) => 4,
    }
}

/// Value at a drop-down position of a dock edge (position 0 means not docked); unknown positions select no dock edge.
pub fn index_to_dock_edge(index: i32) -> (r: Option<DockEdge>)
    ensures
        r == dock_edge_at(index),
{
    match index {
        1 => Some(DockEdge::Left),
        2 => Some(DockEdge::Right),
        3 => Some(DockEdge::Top),
        4 => Some(DockEdge::Bottom),
        _ => None,
    }
}

/// Every value of a dock edge (position 0 means not docked) survives the round trip through its drop-down position.
pub proof fn lemma_dock_edge_index_roundtrip(edge: Option<DockEdge>)
    ensures
        dock_edge_at(dock_edge_index(edge)) == edge,
{
}

/// Drop-down position of a grouping mode.
pub open spec fn grouping_index(grouping: WindowGrouping) -> i32 {
    match grouping {
        WindowGrouping::Ungrouped => 0,
        WindowGrouping::Application => 1,
        WindowGrouping::Monitor => 2,
        WindowGrouping::WindowTitle => 3,
        WindowGrouping::ClassName => 4,
    }
}

/// Value at a drop-down position of a grouping mode; unknown positions select no grouping.
pub open spec fn grouping_at(index: i32) -> WindowGrouping {
    match index {
        1 => WindowGrouping::Application,
        2 => WindowGrouping::Monitor,
        3 => WindowGrouping::WindowTitle,
        4 => WindowGrouping::ClassName,
        _ => WindowGrouping::Ungrouped,
    }
}

/// Drop-down position of a grouping mode.
pub fn grouping_to_index(grouping: WindowGrouping) -> (r: i32)
    ensures
        r == grouping_index(grouping),
{
    match grouping {
        WindowGrouping::Ungrouped => 0,
        WindowGrouping::Application => 1,
        WindowGrouping::Monitor => 2,
        WindowGrouping::WindowTitle => 3,
        WindowGrouping::ClassName => 4,
    }
}

/// Value at a drop-down position of a grouping mode; unknown positions select no grouping.
pub fn index_to_grouping(index: i32) -> (r: WindowGrouping)
    ensures
        r == grouping_at(index),
{
    match index {
        1 => WindowGrouping::Application,
        2 => WindowGrouping::Monitor,
        3 => WindowGrouping::WindowTitle,
        4 => WindowGrouping::ClassName,
        _ => WindowGrouping::Ungrouped,
    }
}

/// Every value of a grouping mode survives the round trip through its drop-down position.
pub proof fn lemma_grouping_index_roundtrip(grouping: WindowGrouping)
    ensures
        grouping_at(grouping_index(grouping)) == grouping,
{
}

/// Drop-down position of a background fit mode.
pub open spec fn background_fit_index(fit: BackgroundImageFit) -> i32 {
    match fit {
        BackgroundImageFit::Cover => 0,
        BackgroundImageFit::Contain => 1,
        BackgroundImageFit::Fill => 2,
        BackgroundImageFit::Preserve => 3,
    }
}

/// Value at a drop-down position of a background fit mode; unknown positions select cover.
pub open spec fn background_fit_at(index: i32) -> BackgroundImageFit {
    match index {
        1 => BackgroundImageFit::Contain,
        2 => BackgroundImageFit::Fill,
        3 => BackgroundImageFit::Preserve,
        _ => BackgroundImageFit::Cover,
    }
}

/// Drop-down position of a background fit mode.
pub fn background_fit_to_index(fit: BackgroundImageFit) -> (r: i32)
    ensures
        r == background_fit_index(fit),
{
    match fit {
        BackgroundImageFit::Cover => 0,
        BackgroundImageFit::Contain => 1,
        BackgroundImageFit::Fill => 2,
        BackgroundImageFit::Preserve => 3,
    }
}

/// Value at a drop-down position of a background fit mode; unknown positions select cover.
pub fn index_to_background_fit(index: i32) -> (r: BackgroundImageFit)
    ensures
        r == background_fit_at(index),
{
    match index {
        1 => BackgroundImageFit::Contain,
        2 => BackgroundImageFit::Fill,
        3 => BackgroundImageFit::Preserve,
        _ => BackgroundImageFit::Cover,
    }
}

/// Every value of a background fit mode survives the round trip through its drop-down position.
pub proof fn lemma_background_fit_index_roundtrip(fit: BackgroundImageFit)
    ensures
        background_fit_at(background_fit_index(fit)) == fit,
{
}

/// Drop-down position of a language.
pub open spec fn locale_index(locale: Locale) -> i32 {
    match locale {
        Locale::English => 0,
        Locale::Spanish => 1,
    }
}

/// Value at a drop-down position of a language; unknown positions select English.
pub open spec fn locale_at(index: i32) -> Locale {
    match index {
        1 => Locale::Spanish,
        _ => Locale::English,
    }
}

/// Drop-down position of a language.
pub fn locale_to_index(locale: Locale) -> (r: i32)
    ensures
        r == locale_index(locale),
{
    match locale {
        Locale::English => 0,
        Locale::Spanish => 1,
    }
}

/// Value at a drop-down position of a language; unknown positions select English.
pub fn index_to_locale(index: i32) -> (r: Locale)
    ensures
        r == locale_at(index),
{
    match index {
        1 => Locale::Spanish,
        _ => Locale::English,
    }
}

/// Every value of a language survives the round trip through its drop-down position.
pub proof fn lemma_locale_index_roundtrip(locale: Locale)
    ensures
        locale_at(locale_index(locale)) == locale,
{
}

/// Drop-down position of a global refresh mode.
pub open spec fn refresh_mode_index(mode: RefreshPerformanceMode) -> i32 {
    match mode {
        RefreshPerformanceMode::Realtime => 0,
        RefreshPerformanceMode::Balanced => 1,
        RefreshPerformanceMode::BatterySaver => 2,
        RefreshPerformanceMode::Manual => 3,
    }
}

/// Value at a drop-down position of a global refresh mode; unknown positions select balanced.
pub open spec fn refresh_mode_at(index: i32) -> RefreshPerformanceMode {
    match index {
        0 => RefreshPerformanceMode::Realtime,
        2 => RefreshPerformanceMode::BatterySaver,
        3 => RefreshPerformanceMode::Manual,
        _ => RefreshPerformanceMode::Balanced,
    }
}

/// Drop-down position of a global refresh mode.
pub fn refresh_mode_to_index(mode: RefreshPerformanceMode) -> (r: i32)
    ensures
        r == refresh_mode_index(mode),
{
    match mode {
        RefreshPerformanceMode::Realtime => 0,
        RefreshPerformanceMode::Balanced => 1,
        RefreshPerformanceMode::BatterySaver => 2,
        RefreshPerformanceMode::Manual => 3,
    }
}

/// Value at a drop-down position of a global refresh mode; unknown positions select balanced.
pub fn index_to_refresh_mode(index: i32) -> (r: RefreshPerformanceMode)
    ensures
        r == refresh_mode_at(index),
{
    match index {
        0 => RefreshPerformanceMode::Realtime,
        2 => RefreshPerformanceMode::BatterySaver,
        3 => RefreshPerformanceMode::Manual,
        _ => RefreshPerformanceMode::Balanced,
    }
}

/// Every value of a global refresh mode survives the round trip through its drop-down position.
pub proof fn lemma_refresh_mode_index_roundtrip(mode: RefreshPerformanceMode)
    ensures
        refresh_mode_at(refresh_mode_index(mode)) == mode,
{
}

/// Drop-down position of a per-application refresh mode.
pub open spec fn thumbnail_refresh_mode_index(mode: ThumbnailRefreshMode) -> i32 {
    match mode {
        ThumbnailRefreshMode::Realtime => 0,
        ThumbnailRefreshMode::Frozen => 1,
        ThumbnailRefreshMode::Interval => 2,
    }
}

/// Value at a drop-down position of a per-application refresh mode; unknown positions select real time.
pub open spec fn thumbnail_refresh_mode_at(index: i32) -> ThumbnailRefreshMode {
    match index {
        1 => ThumbnailRefreshMode::Frozen,
        2 => ThumbnailRefreshMode::Interval,
        _ => ThumbnailRefreshMode::Realtime,
    }
}

/// Drop-down position of a per-application refresh mode.
pub fn thumbnail_refresh_mode_to_index(mode: ThumbnailRefreshMode) -> (r: i32)
    ensures
        r == thumbnail_refresh_mode_index(mode),
{
    match mode {
        ThumbnailRefreshMode::Realtime => 0,
        ThumbnailRefreshMode::Frozen => 1,
        ThumbnailRefreshMode::Interval => 2,
    }
}

/// Value at a drop-down position of a per-application refresh mode; unknown positions select real time.
pub fn refresh_mode_from_index(index: i32) -> (r: ThumbnailRefreshMode)
    ensures
        r == thumbnail_refresh_mode_at(index),
{
    match index {
        1 => ThumbnailRefreshMode::Frozen,
        2 => ThumbnailRefreshMode::Interval,
        _ => ThumbnailRefreshMode::Realtime,
    }
}

/// Every value of a per-application refresh mode survives the round trip through its drop-down position.
pub proof fn lemma_thumbnail_refresh_mode_index_roundtrip(mode: ThumbnailRefreshMode)
    ensures
        thumbnail_refresh_mode_at(thumbnail_refresh_mode_index(mode)) == mode,
{
}

/// Drop-down position of the toolbar position.
pub open spec fn toolbar_position_index(position: ToolbarPosition) -> i32 {
    match position {
        ToolbarPosition::Top => 0,
        ToolbarPosition::Bottom => 1,
    }
}

/// Toolbar position at a drop-down position; every position but 0 is the bottom.
pub open spec fn toolbar_position_at(index: i32) -> ToolbarPosition {
    if index == 0 {
        ToolbarPosition::Top
    } else {
        ToolbarPosition::Bottom
    }
}

/// Drop-down position of the toolbar position.
pub fn toolbar_position_to_index(position: ToolbarPosition) -> (r: i32)
    ensures
        r == toolbar_position_index(position),
{
    match position {
        ToolbarPosition::Top => 0,
        ToolbarPosition::Bottom => 1,
    }
}

/// Toolbar position at a drop-down position; every position but 0 is the bottom.
pub fn index_to_toolbar_position(index: i32) -> (r: ToolbarPosition)
    ensures
        r == toolbar_position_at(index),
{
    match index {
        0 => ToolbarPosition::Top,
        _ => ToolbarPosition::Bottom,
    }
}

/// Every toolbar position survives the round trip through its drop-down position.
pub proof fn lemma_toolbar_position_index_roundtrip(position: ToolbarPosition)
    ensures
        toolbar_position_at(toolbar_position_index(position)) == position,
{
}

/// Drop-down position of a refresh interval in milliseconds; intervals other
/// than the listed presets show as the 2-second preset.
pub open spec fn refresh_index(milliseconds: u32) -> i32 {
    match milliseconds {
        1000 => 0,
        5000 => 2,
        10000 => 3,
        _ => 1,
    }
}

/// Refresh interval in milliseconds at a drop-down position; unknown positions
/// select 2 seconds.
pub open spec fn refresh_at(index: i32) -> u32 {
    match index {
        0 => 1000,
        2 => 5000,
        3 => 10000,
        _ => 2000,
    }
}

/// Drop-down position of a refresh interval in milliseconds.
pub fn refresh_to_index(milliseconds: u32) -> (r: i32)
    ensures
        r == refresh_index(milliseconds),
{
    match milliseconds {
        1_000 => 0,
        5_000 => 2,
        10_000 => 3,
        _ => 1,
    }
}

/// Refresh interval in milliseconds at a drop-down position.
pub fn index_to_refresh(index: i32) -> (r: u32)
    ensures
        r == refresh_at(index),
{
    match index {
        0 => 1_000,
        2 => 5_000,
        3 => 10_000,
        _ => 2_000,
    }
}

/// Each preset interval survives the round trip through its drop-down
/// position, and each position through its interval.
pub proof fn lemma_refresh_index_roundtrip(milliseconds: u32, index: i32)
    ensures
        (milliseconds == 1000 || milliseconds == 2000 || milliseconds == 5000 || milliseconds
            == 10000) ==> refresh_at(refresh_index(milliseconds)) == milliseconds,
        0 <= index <= 3 ==> refresh_index(refresh_at(index)) == index,
{
}

/// An optional window dimension from a spin-box value: `None` for values that
/// are zero or negative, otherwise the value raised to at least `minimum`.
pub fn optional_dimension_with_min(value: i32, minimum: u32) -> (r: Option<u32>)
    ensures
        r == if value > 0 {
            Some(if (value as u32) < minimum { minimum } else { value as u32 })
        } else {
            None::<u32>
        },
{
    if value <= 0 {
        return None;
    }
    let v = value as u32;
    Some(if v < minimum { minimum } else { v })
}

/// The drop-down positions of the settings window, in the order the lists
/// show them: layouts grid, mosaic, bento, Fibonacci, columns, row, column;
/// dock edge none, left, right, top, bottom; grouping none, application,
/// monitor, window title, class name; background fit cover, contain, fill,
/// preserve; language English, Spanish; refresh mode real time, balanced,
/// battery saver, manual; per-application refresh real time, frozen,
/// interval; toolbar top, bottom; refresh interval 1, 2, 5 and 10 seconds.
/// A position outside a list selects its default.
pub proof fn lemma_drop_down_positions(index: i32)
    ensures
        layout_index(LayoutType::Grid) == 0,
        layout_index(LayoutType::Mosaic) == 1,
        layout_index(LayoutType::Bento) == 2,
        layout_index(LayoutType::Fibonacci) == 3,
        layout_index(LayoutType::Columns) == 4,
        layout_index(LayoutType::Row) == 5,
        layout_index(LayoutType::Column) == 6,
        dock_edge_index(None) == 0,
        dock_edge_index(Some(DockEdge::Left)) == 1,
        dock_edge_index(Some(DockEdge::Right)) == 2,
        dock_edge_index(Some(DockEdge::Top)) == 3,
        dock_edge_index(Some(DockEdge::Bottom)) == 4,
        grouping_index(WindowGrouping::Ungrouped) == 0,
        grouping_index(WindowGrouping::Application) == 1,
        grouping_index(WindowGrouping::Monitor) == 2,
        grouping_index(WindowGrouping::WindowTitle) == 3,
        grouping_index(WindowGrouping::ClassName) == 4,
        background_fit_index(BackgroundImageFit::Cover) == 0,
        background_fit_index(BackgroundImageFit::Contain) == 1,
        background_fit_index(BackgroundImageFit::Fill) == 2,
        background_fit_index(BackgroundImageFit::Preserve) == 3,
        locale_index(Locale::English) == 0,
        locale_index(Locale::Spanish) == 1,
        refresh_mode_index(RefreshPerformanceMode::Realtime) == 0,
        refresh_mode_index(RefreshPerformanceMode::Balanced) == 1,
        refresh_mode_index(RefreshPerformanceMode::BatterySaver) == 2,
        refresh_mode_index(RefreshPerformanceMode::Manual) == 3,
        thumbnail_refresh_mode_index(ThumbnailRefreshMode::Realtime) == 0,
        thumbnail_refresh_mode_index(ThumbnailRefreshMode::Frozen) == 1,
        thumbnail_refresh_mode_index(ThumbnailRefreshMode::Interval) == 2,
        toolbar_position_index(ToolbarPosition::Top) == 0,
        toolbar_position_index(ToolbarPosition::Bottom) == 1,
        refresh_index(1000u32) == 0,
        refresh_index(2000u32) == 1,
        refresh_index(5000u32) == 2,
        refresh_index(10000u32) == 3,
        !(0 <= index <= 6) ==> layout_at(index) == LayoutType::Grid,
        !(0 <= index <= 4) ==> dock_edge_at(index) is None,
        !(0 <= index <= 4) ==> grouping_at(index) == WindowGrouping::Ungrouped,
        !(0 <= index <= 3) ==> background_fit_at(index) == BackgroundImageFit::Cover,
        !(0 <= index <= 1) ==> locale_at(index) == Locale::English,
        !(0 <= index <= 3) ==> refresh_mode_at(index) == RefreshPerformanceMode::Balanced,
        !(0 <= index <= 2) ==> thumbnail_refresh_mode_at(index) == ThumbnailRefreshMode::Realtime,
        !(0 <= index <= 3) ==> refresh_at(index) == 2000,
{
}

} // verus!
