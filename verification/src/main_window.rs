//! What a click in the main window does.
//!
//! The window shows the dashboard, or the feedback form or the about panel
//! over it. A click on a header link opens the page it names; otherwise the
//! panel on top decides. The caller performs the action chosen here.

use vstd::prelude::*;
use crate::gui_view::{
    HEADER_HIT_PADDING, HeaderNavLayout, LIST_LEFT, LIST_WIDTH, Rect, feedback_consent_hit,
    feedback_submit_hit, header_link_contains, update_action_hit, update_page_hit, is_list_order, opt_row, point_in_rect, row_at,
    sensor_at_point,
};
use crate::telemetry::{SensorReading, SysInfo};

verus! {

/// What the window shows on top of the dashboard.
#[derive(Clone, Copy, Debug, PartialEq, Eq, Structural)]
pub enum Overlay {
    Dashboard,
    Feedback,
    About,
}

/// What a click does.
pub enum ClickAction<V> {
    ShowFeedback,
    ShowSettings,
    ShowAbout,
    /// Flip the consent box of the feedback form.
    ToggleConsent,
    SubmitFeedback,
    CloseFeedback,
    CloseAbout,
    /// Carry out the update action the update status offers.
    UpdateAction,
    /// Open the release page the update status offers.
    OpenReleasePage,
    /// Clear the recorded history (the reset mark of the graph panel).
    ResetHistory,
    /// Select the sensor of the clicked row.
    Select(SensorReading<V>),
    Nothing,
}

/// Which rule decides a click.
#[derive(Clone, Copy, Debug, PartialEq, Eq, Structural)]
pub enum ClickKind {
    ShowFeedback,
    ShowSettings,
    ShowAbout,
    ToggleConsent,
    SubmitFeedback,
    CloseFeedback,
    CloseAbout,
    UpdateAction,
    OpenReleasePage,
    ResetHistory,
    /// The click went to the sensor list, which picks the row under it.
    PickSensor,
    Nothing,
}

/// Height of the header band holding the links.
pub const HEADER_BAND: i32 = 54;

/// Whether a header link, widened by the hit padding, holds `x`.
pub open spec fn link_hit(link: (i32, i32), x: int) -> bool {
    link.0 - HEADER_HIT_PADDING <= x <= link.1 + HEADER_HIT_PADDING
}

/// Whether the header links can be widened by the hit padding.
pub open spec fn nav_in_range(nav: HeaderNavLayout) -> bool {
    &&& nav.about.0 - HEADER_HIT_PADDING >= i32::MIN && nav.about.1 + HEADER_HIT_PADDING <= i32::MAX
    &&& nav.settings.0 - HEADER_HIT_PADDING >= i32::MIN && nav.settings.1 + HEADER_HIT_PADDING
        <= i32::MAX
    &&& nav.feedback.0 - HEADER_HIT_PADDING >= i32::MIN && nav.feedback.1 + HEADER_HIT_PADDING
        <= i32::MAX
}

pub open spec fn in_rect(r: Rect, x: int, y: int) -> bool {
    r.left <= x <= r.right && r.top <= y <= r.bottom
}

/// The corner that closes an overlay.
pub open spec fn in_close_corner(x: int, y: int) -> bool {
    x >= 850 && y <= 170
}

/// The graph panel of the dashboard.
pub open spec fn in_graph_panel(x: int, y: int) -> bool {
    576 <= x <= 964 && 244 <= y <= 634
}

/// The reset mark in the graph panel's corner.
pub open spec fn in_reset_mark(x: int, y: int) -> bool {
    x >= 895 && y <= 264
}

/// The rule that decides a click at (`x`, `y`); `has_data` says whether
/// telemetry is on the dashboard. Header links come first; the feedback
/// form takes consent and submit clicks and closes from its corner; the
/// about panel closes from its corner and takes its update action and
/// release page links; the dashboard's graph panel only
/// answers its reset mark, and the rest of the dashboard goes to the list.
pub open spec fn click_kind(
    overlay: Overlay,
    nav: HeaderNavLayout,
    has_data: bool,
    x: int,
    y: int,
) -> ClickKind {
    if y <= HEADER_BAND && link_hit(nav.feedback, x) {
        ClickKind::ShowFeedback
    } else if y <= HEADER_BAND && link_hit(nav.settings, x) {
        ClickKind::ShowSettings
    } else if y <= HEADER_BAND && link_hit(nav.about, x) {
        ClickKind::ShowAbout
    } else {
        match overlay {
            Overlay::Feedback => if in_rect(feedback_consent_rect(), x, y) {
                ClickKind::ToggleConsent
            } else if in_rect(feedback_submit_rect(), x, y) {
                ClickKind::SubmitFeedback
            } else if in_close_corner(x, y) {
                ClickKind::CloseFeedback
            } else {
                ClickKind::Nothing
            },
            Overlay::About => if in_close_corner(x, y) {
                ClickKind::CloseAbout
            } else if in_rect(update_action_rect(), x, y) {
                ClickKind::UpdateAction
            } else if in_rect(update_page_rect(), x, y) {
                ClickKind::OpenReleasePage
            } else {
                ClickKind::Nothing
            },
            Overlay::Dashboard => if !has_data {
                ClickKind::Nothing
            } else if in_graph_panel(x, y) {
                if in_reset_mark(x, y) {
                    ClickKind::ResetHistory
                } else {
                    ClickKind::Nothing
                }
            } else {
                ClickKind::PickSensor
            },
        }
    }
}

pub open spec fn feedback_consent_rect() -> Rect {
    Rect { left: 30, top: 430, right: 720, bottom: 472 }
}

pub open spec fn update_action_rect() -> Rect {
    Rect { left: 214, top: 448, right: 620, bottom: 480 }
}

pub open spec fn update_page_rect() -> Rect {
    Rect { left: 214, top: 484, right: 620, bottom: 516 }
}

pub open spec fn feedback_submit_rect() -> Rect {
    Rect { left: 30, top: 476, right: 480, bottom: 518 }
}

/// The kind of an action.
pub open spec fn kind_of<V>(a: ClickAction<V>) -> ClickKind {
    match a {
        ClickAction::ShowFeedback => ClickKind::ShowFeedback,
        ClickAction::ShowSettings => ClickKind::ShowSettings,
        ClickAction::ShowAbout => ClickKind::ShowAbout,
        ClickAction::ToggleConsent => ClickKind::ToggleConsent,
        ClickAction::SubmitFeedback => ClickKind::SubmitFeedback,
        ClickAction::CloseFeedback => ClickKind::CloseFeedback,
        ClickAction::CloseAbout => ClickKind::CloseAbout,
        ClickAction::UpdateAction => ClickKind::UpdateAction,
        ClickAction::OpenReleasePage => ClickKind::OpenReleasePage,
        ClickAction::ResetHistory => ClickKind::ResetHistory,
        ClickAction::Select(_) => ClickKind::PickSensor,
        ClickAction::Nothing => ClickKind::Nothing,
    }
}

/// The sensor an action selects, if any.
pub open spec fn selected<V>(a: ClickAction<V>) -> Option<SensorReading<V>> {
    match a {
        ClickAction::Select(s) => Some(s),
        _ => None,
    }
}

/// The row a list pick at (`x`, `y`) finds: nothing beside the list, else
/// the row whose band holds `y` in the list's order.
pub open spec fn picks<V: Default>(info: SysInfo<V>, x: int, y: int, r: Option<SensorReading<V>>) -> bool {
    if !(LIST_LEFT <= x < LIST_LEFT + LIST_WIDTH) {
        r is None
    } else {
        exists|filler: V, rows: Seq<(Seq<char>, V, Seq<char>)>|
            is_list_order(info, filler, rows) && opt_row(r) == row_at(rows, y)
    }
}

/// What a click at (`x`, `y`) does.
pub fn click_action<V: Copy + Default>(
    overlay: Overlay,
    nav: &HeaderNavLayout,
    info: Option<&SysInfo<V>>,
    x: i32,
    y: i32,
) -> (r: ClickAction<V>)
    requires
        nav_in_range(*nav),
    ensures
        click_kind(overlay, *nav, info is Some, x as int, y as int) != ClickKind::PickSensor
            ==> kind_of(r) == click_kind(overlay, *nav, info is Some, x as int, y as int),
        click_kind(overlay, *nav, info is Some, x as int, y as int) == ClickKind::PickSensor
            ==> (kind_of(r) == ClickKind::PickSensor || r is Nothing) && picks(
            *info.unwrap(),
            x as int,
            y as int,
            selected(r),
        ),
{
    if y <= HEADER_BAND {
        if header_link_contains(nav.feedback, x) {
            return ClickAction::ShowFeedback;
        }
        if header_link_contains(nav.settings, x) {
            return ClickAction::ShowSettings;
        }
        if header_link_contains(nav.about, x) {
            return ClickAction::ShowAbout;
        }
    }
    match overlay {
        Overlay::Feedback => {
            if point_in_rect(&feedback_consent_hit(), x, y) {
                ClickAction::ToggleConsent
            } else if point_in_rect(&feedback_submit_hit(), x, y) {
                ClickAction::SubmitFeedback
            } else if x >= 850 && y <= 170 {
                ClickAction::CloseFeedback
            } else {
                ClickAction::Nothing
            }
        },
        Overlay::About => {
            if x >= 850 && y <= 170 {
                ClickAction::CloseAbout
            } else if point_in_rect(&update_action_hit(), x, y) {
                ClickAction::UpdateAction
            } else if point_in_rect(&update_page_hit(), x, y) {
                ClickAction::OpenReleasePage
            } else {
                ClickAction::Nothing
            }
        },
        Overlay::Dashboard => match info {
            None => ClickAction::Nothing,
            Some(info) => {
                if 576 <= x && x <= 964 && 244 <= y && y <= 634 {
                    if x >= 895 && y <= 264 {
                        ClickAction::ResetHistory
                    } else {
                        ClickAction::Nothing
                    }
                } else {
                    match sensor_at_point(info, x, y) {
                        Some(sensor) => ClickAction::Select(sensor),
                        None => ClickAction::Nothing,
                    }
                }
            },
        },
    }
}

/// What a double click at (`x`, `y`) selects for maximum tracking: only
/// the dashboard's list answers, and only while telemetry is shown.
pub fn double_click_target<V: Copy + Default>(
    overlay: Overlay,
    info: Option<&SysInfo<V>>,
    x: i32,
    y: i32,
) -> (r: Option<SensorReading<V>>)
    ensures
        overlay != Overlay::Dashboard || info is None ==> r is None,
        overlay == Overlay::Dashboard && info is Some ==> picks(*info.unwrap(), x as int, y as int, r),
{
    if overlay != Overlay::Dashboard {
        return None;
    }
    match info {
        Some(info) => sensor_at_point(info, x, y),
        None => None,
    }
}

/// What the window shows after an action.
pub open spec fn overlay_after(overlay: Overlay, kind: ClickKind) -> Overlay {
    match kind {
        ClickKind::ShowFeedback => Overlay::Feedback,
        ClickKind::ShowAbout => Overlay::About,
        ClickKind::CloseFeedback => Overlay::Dashboard,
        ClickKind::CloseAbout => Overlay::Dashboard,
        _ => overlay,
    }
}

/// What the window shows after `action`: opening the feedback form hides
/// the about panel and the other way round; closing either shows the
/// dashboard.
pub fn next_overlay<V>(overlay: Overlay, action: &ClickAction<V>) -> (r: Overlay)
    ensures
        r == overlay_after(overlay, kind_of(*action)),
{
    match action {
        ClickAction::ShowFeedback => Overlay::Feedback,
        ClickAction::ShowAbout => Overlay::About,
        ClickAction::CloseFeedback => Overlay::Dashboard,
        ClickAction::CloseAbout => Overlay::Dashboard,
        _ => overlay,
    }
}

/// A client point from a mouse message's `lparam`: the low and high words,
/// each a signed 16-bit coordinate.
pub open spec fn lparam_point(bits: u32) -> (int, int) {
    let lo = (bits & 0xffff) as int;
    let hi = ((bits >> 16) & 0xffff) as int;
    (if lo >= 0x8000 {
        lo - 0x10000
    } else {
        lo
    }, if hi >= 0x8000 {
        hi - 0x10000
    } else {
        hi
    })
}

/// The client point a mouse message carries in the low 32 bits of
/// `lparam`.
pub fn mouse_point(bits: u32) -> (r: (i32, i32))
    ensures
        (r.0 as int, r.1 as int) == lparam_point(bits),
{
    let lo: u32 = bits & 0xffff;
    let hi: u32 = (bits >> 16) & 0xffff;
    assert(lo <= 0xffff) by (bit_vector)
        requires
            lo == bits & 0xffff,
    ;
    assert(hi <= 0xffff) by (bit_vector)
        requires
            hi == (bits >> 16) & 0xffff,
    ;
    let x: i32 = if lo >= 0x8000 {
        lo as i32 - 0x10000
    } else {
        lo as i32
    };
    let y: i32 = if hi >= 0x8000 {
        hi as i32 - 0x10000
    } else {
        hi as i32
    };
    (x, y)
}

} // verus!
