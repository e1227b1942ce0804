//! Where the picker window appears when its shortcut is pressed: next to the text
//! caret, kept on the caret's monitor, or centred when no caret is found.
use vstd::prelude::*;

verus! {

/// A screen rectangle in physical pixels: its top-left corner and its size.
#[derive(PartialEq, Eq, Structural, Clone, Copy, Debug)]
pub struct Area {
    pub x: i32,
    pub y: i32,
    pub width: u32,
    pub height: u32,
}

/// Whether an integer is a 32-bit signed value.
pub open spec fn fits_i32(v: int) -> bool {
    i32::MIN <= v <= i32::MAX
}

/// The right edge of an area: `x + (width as i32)`.
pub open spec fn right_edge(a: Area) -> int {
    a.x + (a.width as i32)
}

/// The bottom edge of an area: `y + (height as i32)`.
pub open spec fn bottom_edge(a: Area) -> int {
    a.y + (a.height as i32)
}

/// Whether the point lies in the area (left and top edges included).
pub open spec fn area_has(a: Area, x: i32, y: i32) -> bool {
    x >= a.x && x < right_edge(a) && y >= a.y && y < bottom_edge(a)
}

/// Whether the containment test can be evaluated without overflow, taking the
/// short-circuit order of its four comparisons into account.
pub open spec fn area_test_defined(a: Area, x: i32, y: i32) -> bool {
    &&& x >= a.x ==> fits_i32(right_edge(a))
    &&& (x >= a.x && x < right_edge(a) && y >= a.y) ==> fits_i32(bottom_edge(a))
}

/// Whether the point lies in the area.
pub fn area_contains(a: &Area, x: i32, y: i32) -> (r: bool)
    requires
        area_test_defined(*a, x, y),
    ensures
        r == area_has(*a, x, y),
{
    x >= a.x && x < a.x + (a.width as i32) && y >= a.y && y < a.y + (a.height as i32)
}

/// Whether the search for the caret's monitor can run: each monitor that is
/// tested (those up to the first that holds the point) can be tested.
pub open spec fn monitor_search_defined(ms: Seq<Area>, x: i32, y: i32) -> bool {
    forall|i: int|
        0 <= i < ms.len() && (forall|j: int| 0 <= j < i ==> !area_has(#[trigger] ms[j], x, y))
            ==> area_test_defined(#[trigger] ms[i], x, y)
}

/// Decides `area_test_defined`.
pub fn area_test_ready(a: &Area, x: i32, y: i32) -> (r: bool)
    ensures
        r == area_test_defined(*a, x, y),
{
    let right = a.x as i64 + (#[verifier::truncate] (a.width as i32)) as i64;
    let bottom = a.y as i64 + (#[verifier::truncate] (a.height as i32)) as i64;
    let min = i32::MIN as i64;
    let max = i32::MAX as i64;
    let right_ok = min <= right && right <= max;
    let bottom_ok = min <= bottom && bottom <= max;
    if x >= a.x && !right_ok {
        return false;
    }
    if x >= a.x && (x as i64) < right && y >= a.y && !bottom_ok {
        return false;
    }
    true
}

/// Decides `monitor_search_defined`: whether `monitor_for_point` may be called.
pub fn monitor_search_ready(ms: &Vec<Area>, x: i32, y: i32) -> (r: bool)
    ensures
        r == monitor_search_defined(ms@, x, y),
{
    let mut i: usize = 0;
    while i < ms.len()
        invariant
            i <= ms@.len(),
            forall|j: int| 0 <= j < i ==> !area_has(#[trigger] ms@[j], x, y),
            forall|j: int| 0 <= j < i ==> area_test_defined(#[trigger] ms@[j], x, y),
        decreases ms.len() - i,
    {
        if !area_test_ready(&ms[i], x, y) {
            assert(!area_test_defined(ms@[i as int], x, y));
            return false;
        }
        if area_contains(&ms[i], x, y) {
            assert forall|k: int|
                0 <= k < ms@.len() && (forall|j: int| 0 <= j < k ==> !area_has(#[trigger] ms@[j], x, y))
                    implies area_test_defined(#[trigger] ms@[k], x, y) by {
                if k > i {
                    assert(area_has(ms@[i as int], x, y));
                }
            }
            return true;
        }
        i = i + 1;
    }
    true
}

/// The first monitor, in the order given, that holds the point.
pub fn monitor_for_point(ms: &Vec<Area>, x: i32, y: i32) -> (r: Option<usize>)
    requires
        monitor_search_defined(ms@, x, y),
    ensures
        r matches Some(i) ==> i < ms@.len() && area_has(ms@[i as int], x, y) && forall|j: int|
            0 <= j < i ==> !area_has(#[trigger] ms@[j], x, y),
        r matches Some(i) ==> ms@[i as int].x <= x < ms@[i as int].x as int + (
        ms@[i as int].width as i32) as int && ms@[i as int].y <= y < ms@[i as int].y as int + (
        ms@[i as int].height as i32) as int,
        r is None ==> forall|j: int| 0 <= j < ms@.len() ==> !area_has(#[trigger] ms@[j], x, y),
{
    let mut i: usize = 0;
    while i < ms.len()
        invariant
            i <= ms@.len(),
            monitor_search_defined(ms@, x, y),
            forall|j: int| 0 <= j < i ==> !area_has(#[trigger] ms@[j], x, y),
        decreases ms.len() - i,
    {
        assert(area_test_defined(ms@[i as int], x, y));
        if area_contains(&ms[i], x, y) {
            return Some(i);
        }
        i = i + 1;
    }
    None
}

/// A point lies in an area exactly when it is at or right of its left edge and
/// left of its right edge, and at or below its top edge and above its bottom
/// edge: a point on or below the bottom edge is never in the area.
pub proof fn law_area_holds_point_in_both_axes(a: Area, x: i32, y: i32)
    ensures
        area_has(a, x, y) <==> (a.x <= x && (x as int) < a.x as int + (a.width as i32) as int && a.y
            <= y && (y as int) < a.y as int + (a.height as i32) as int),
        (y as int) >= a.y as int + (a.height as i32) as int ==> !area_has(a, x, y),
{
}

/// Of two monitors stacked one right below the other, no point is on both, so
/// a caret on the lower one is never placed on the upper one.
pub proof fn law_stacked_monitors_are_disjoint(top: Area, low: Area, x: i32, y: i32)
    requires
        low.y as int == top.y as int + (top.height as i32) as int,
    ensures
        !(area_has(top, x, y) && area_has(low, x, y)),
        area_has(low, x, y) ==> !area_has(top, x, y),
{
}

/// Where the window goes: 20 pixels below the caret at `(x, y)`; on a known
/// monitor it is moved left so that its right edge meets the monitor's right
/// edge when it would stick out, and above the caret (its bottom 10 pixels over
/// the caret) when it would stick out at the bottom.
pub open spec fn popup_spot(x: i32, y: i32, monitor: Option<Area>, ww: u32, wh: u32) -> (int, int) {
    let fx: int = x as int;
    let fy: int = y + 20;
    match monitor {
        None => (fx, fy),
        Some(m) => {
            let cx = if fx + (ww as i32) > right_edge(m) {
                right_edge(m) - (ww as i32)
            } else {
                fx
            };
            let cy = if fy + (wh as i32) > bottom_edge(m) {
                y - (wh as i32) - 10
            } else {
                fy
            };
            (cx, cy)
        },
    }
}

/// Whether every step of `popup_spot` stays within 32-bit signed arithmetic.
pub open spec fn popup_spot_defined(x: i32, y: i32, monitor: Option<Area>, ww: u32, wh: u32) -> bool {
    &&& fits_i32(y + 20)
    &&& monitor matches Some(m) ==> {
        &&& fits_i32(x + (ww as i32))
        &&& fits_i32(right_edge(m))
        &&& fits_i32(y + 20 + (wh as i32))
        &&& fits_i32(bottom_edge(m))
        &&& (x + (ww as i32) > right_edge(m) ==> fits_i32(right_edge(m) - (ww as i32)))
        &&& (y + 20 + (wh as i32) > bottom_edge(m) ==> fits_i32(y - (wh as i32)) && fits_i32(
            y - (wh as i32) - 10,
        ))
    }
}

/// Decides whether `popup_position` may be called.
pub fn popup_position_defined(x: i32, y: i32, monitor: Option<Area>, ww: u32, wh: u32) -> (r: bool)
    ensures
        r == popup_spot_defined(x, y, monitor, ww, wh),
{
    let fy = y as i64 + 20;
    if fy > i32::MAX as i64 {
        return false;
    }
    match monitor {
        None => true,
        Some(m) => {
            let wwi = (ww as i32) as i64;
            let whi = (wh as i32) as i64;
            let right = m.x as i64 + (m.width as i32) as i64;
            let bottom = m.y as i64 + (m.height as i32) as i64;
            let min = i32::MIN as i64;
            let max = i32::MAX as i64;
            let xe = x as i64 + wwi;
            let ye = fy + whi;
            if xe < min || xe > max || right < min || right > max {
                return false;
            }
            if ye < min || ye > max || bottom < min || bottom > max {
                return false;
            }
            if xe > right && right - wwi < min || xe > right && right - wwi > max {
                return false;
            }
            let above = y as i64 - whi - 10;
            if ye > bottom && (y as i64 - whi < min || y as i64 - whi > max) {
                return false;
            }
            if ye > bottom && above < min || ye > bottom && above > max {
                return false;
            }
            true
        },
    }
}

/// The window position for a caret at `(x, y)`, a window of `ww` by `wh`, and the
/// monitor found for the caret, if any.
pub fn popup_position(x: i32, y: i32, monitor: Option<Area>, ww: u32, wh: u32) -> (r: (i32, i32))
    requires
        popup_spot_defined(x, y, monitor, ww, wh),
    ensures
        (r.0 as int, r.1 as int) == popup_spot(x, y, monitor, ww, wh),
        monitor matches Some(m) ==> r.0 + (ww as i32) <= right_edge(m),
{
    let mut fx = x;
    let mut fy = y + 20;
    if let Some(m) = monitor {
        let wwi = #[verifier::truncate] (ww as i32);
        let whi = #[verifier::truncate] (wh as i32);
        if fx + wwi > m.x + (m.width as i32) {
            fx = m.x + (m.width as i32) - wwi;
        }
        if fy + whi > m.y + (m.height as i32) {
            fy = y - whi - 10;
        }
    }
    (fx, fy)
}

/// The window's right edge never passes the right edge of the caret's monitor.
pub proof fn law_popup_stays_left_of_monitor_edge(x: i32, y: i32, m: Area, ww: u32, wh: u32)
    requires
        popup_spot_defined(x, y, Some(m), ww, wh),
    ensures
        popup_spot(x, y, Some(m), ww, wh).0 + (ww as i32) <= right_edge(m),
        popup_spot(x, y, Some(m), ww, wh).1 == y + 20 || popup_spot(x, y, Some(m), ww, wh).1 + (
        wh as i32) + 10 == y,
{
}

/// The size the window takes near the caret: the size the user last gave it, or
/// 450 by 500.
pub fn popup_size(custom: Option<(u32, u32)>) -> (r: (u32, u32))
    ensures
        r == match custom {
            Some(s) => s,
            None => (450u32, 500u32),
        },
{
    match custom {
        Some(s) => s,
        None => (450, 500),
    }
}

/// What the global shortcut does.
#[derive(PartialEq, Eq, Structural, Clone, Copy, Debug)]
pub enum ShortcutAction {
    /// Not a press of the picker's shortcut, or no window: nothing.
    Ignore,
    /// The window is showing: hide it.
    Hide,
    /// Show the window next to the caret at this point (textbox mode).
    ShowNearCaret(i32, i32),
    /// Show the window centred at 800 by 600 (workspace mode).
    ShowCentered,
}

/// Decides the shortcut's effect from the key event, the window's state and
/// whether a caret was found.
pub fn shortcut_action(
    pressed: bool,
    is_picker_shortcut: bool,
    has_window: bool,
    visible: bool,
    caret: Option<(i32, i32)>,
) -> (r: ShortcutAction)
    ensures
        !(pressed && is_picker_shortcut && has_window) ==> r == ShortcutAction::Ignore,
        pressed && is_picker_shortcut && has_window && visible ==> r == ShortcutAction::Hide,
        pressed && is_picker_shortcut && has_window && !visible ==> r == match caret {
            Some((x, y)) => ShortcutAction::ShowNearCaret(x, y),
            None => ShortcutAction::ShowCentered,
        },
{
    if !(pressed && is_picker_shortcut && has_window) {
        ShortcutAction::Ignore
    } else if visible {
        ShortcutAction::Hide
    } else {
        match caret {
            Some((x, y)) => ShortcutAction::ShowNearCaret(x, y),
            None => ShortcutAction::ShowCentered,
        }
    }
}

/// Whether a resize of the window is remembered as the user's size: only while
/// the window is not in centred (workspace) mode.
pub fn remember_resize(centered_mode: bool) -> (r: bool)
    ensures
        r == !centered_mode,
{
    !centered_mode
}

} // verus!
