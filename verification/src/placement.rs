//! Where the overlay window is placed: at its saved position, kept inside the monitor that
//! holds it, or in the top-right corner of the primary monitor.

use vstd::prelude::*;
use crate::model::opt_view;

verus! {

/// The distance kept from the monitor's edges.
pub const WINDOW_MARGIN: i64 = 20;

/// A monitor's area in physical pixels, and its name.
#[derive(Debug)]
pub struct MonitorArea {
    pub x: i32,
    pub y: i32,
    pub width: u32,
    pub height: u32,
    pub name: Option<String>,
}

/// The point lies on the monitor.
pub open spec fn on_monitor(m: MonitorArea, x: int, y: int) -> bool {
    x >= m.x && x < m.x + m.width && y >= m.y && y < m.y + m.height
}

/// The index of the first monitor of `ms[from..]` that holds the point.
pub open spec fn first_holding(ms: Seq<MonitorArea>, x: int, y: int, from: int) -> Option<int>
    decreases ms.len() - from,
{
    if from < 0 || from >= ms.len() {
        None
    } else if on_monitor(ms[from], x, y) {
        Some(from)
    } else {
        first_holding(ms, x, y, from + 1)
    }
}

/// The index of the first monitor of `ms[from..]` with the given name.
pub open spec fn first_named(ms: Seq<MonitorArea>, name: Option<Seq<char>>, from: int) -> Option<int>
    decreases ms.len() - from,
{
    if from < 0 || from >= ms.len() {
        None
    } else if opt_view(ms[from].name) == name {
        Some(from)
    } else {
        first_named(ms, name, from + 1)
    }
}

/// The monitor the window goes on: the one holding the saved position, else the primary
/// monitor (found by name), else the first.
pub open spec fn chosen_monitor(ms: Seq<MonitorArea>, saved: Option<(i32, i32)>, primary: Option<Option<Seq<char>>>) -> int {
    let by_position = match saved {
        Some(p) => first_holding(ms, p.0 as int, p.1 as int, 0),
        None => None,
    };
    let by_name = match primary {
        Some(n) => first_named(ms, n, 0),
        None => None,
    };
    match by_position {
        Some(i) => i,
        None => match by_name {
            Some(i) => i,
            None => 0,
        },
    }
}

pub open spec fn clamp_int(v: int, lo: int, hi: int) -> int {
    if v < lo {
        lo
    } else if v > hi {
        hi
    } else {
        v
    }
}

/// The window's position: the saved position clamped to the monitor's area less the margin,
/// or the top-right corner of that area.
pub open spec fn placement_spec(
    window_width: u32,
    window_height: u32,
    ms: Seq<MonitorArea>,
    saved: Option<(i32, i32)>,
    primary: Option<Option<Seq<char>>>,
) -> Option<(i64, i64)> {
    if ms.len() == 0 {
        None
    } else {
        let m = ms[chosen_monitor(ms, saved, primary)];
        let min_x = m.x + WINDOW_MARGIN;
        let min_y = m.y + WINDOW_MARGIN;
        let max_x = if m.x + m.width - window_width - WINDOW_MARGIN > min_x {
            m.x + m.width - window_width - WINDOW_MARGIN
        } else {
            min_x
        };
        let max_y = if m.y + m.height - window_height - WINDOW_MARGIN > min_y {
            m.y + m.height - window_height - WINDOW_MARGIN
        } else {
            min_y
        };
        match saved {
            Some(p) => Some((clamp_int(p.0 as int, min_x, max_x) as i64, clamp_int(p.1 as int, min_y, max_y) as i64)),
            None => Some((max_x as i64, min_y as i64)),
        }
    }
}

/// The primary monitor's name, when the primary monitor is known.
pub open spec fn primary_view(p: Option<Option<String>>) -> Option<Option<Seq<char>>> {
    match p {
        Some(n) => Some(opt_view(n)),
        None => None,
    }
}

fn holds(m: &MonitorArea, x: i32, y: i32) -> (r: bool)
    ensures
        r == on_monitor(*m, x as int, y as int),
{
    let x = x as i64;
    let y = y as i64;
    x >= m.x as i64 && x < m.x as i64 + m.width as i64 && y >= m.y as i64 && y < m.y as i64 + m.height as i64
}

fn same_name(a: &Option<String>, b: &Option<String>) -> (r: bool)
    ensures
        r == (opt_view(*a) == opt_view(*b)),
{
    match (a, b) {
        (Some(x), Some(y)) => *x == *y,
        (None, None) => true,
        _ => false,
    }
}

fn find_holding(monitors: &Vec<MonitorArea>, x: i32, y: i32) -> (r: Option<usize>)
    ensures
        match r {
            Some(k) => k < monitors.len() && first_holding(monitors@, x as int, y as int, 0) == Some(k as int),
            None => first_holding(monitors@, x as int, y as int, 0) is None,
        },
{
    let mut i: usize = 0;
    while i < monitors.len()
        invariant
            i <= monitors.len(),
            first_holding(monitors@, x as int, y as int, 0) == first_holding(monitors@, x as int, y as int, i as int),
        decreases monitors.len() - i,
    {
        if holds(&monitors[i], x, y) {
            return Some(i);
        }
        i = i + 1;
    }
    None
}

fn find_named(monitors: &Vec<MonitorArea>, name: &Option<String>) -> (r: Option<usize>)
    ensures
        match r {
            Some(k) => k < monitors.len() && first_named(monitors@, opt_view(*name), 0) == Some(k as int),
            None => first_named(monitors@, opt_view(*name), 0) is None,
        },
{
    let mut i: usize = 0;
    while i < monitors.len()
        invariant
            i <= monitors.len(),
            first_named(monitors@, opt_view(*name), 0) == first_named(monitors@, opt_view(*name), i as int),
        decreases monitors.len() - i,
    {
        if same_name(&monitors[i].name, name) {
            return Some(i);
        }
        i = i + 1;
    }
    None
}

/// Where to put the overlay window; `None` when no monitor is known. `saved_x` and
/// `saved_y` count only together; `primary` is the primary monitor's name when the primary
/// monitor is known.
pub fn place_window(
    window_width: u32,
    window_height: u32,
    monitors: &Vec<MonitorArea>,
    primary: Option<Option<String>>,
    saved_x: Option<i32>,
    saved_y: Option<i32>,
) -> (r: Option<(i64, i64)>)
    ensures
        r == placement_spec(
            window_width,
            window_height,
            monitors@,
            match (saved_x, saved_y) {
                (Some(x), Some(y)) => Some((x, y)),
                _ => None,
            },
            primary_view(primary),
        ),
{
    if monitors.len() == 0 {
        return None;
    }
    let saved: Option<(i32, i32)> = match (saved_x, saved_y) {
        (Some(x), Some(y)) => Some((x, y)),
        _ => None,
    };
    let ghost ms = monitors@;
    let by_position: Option<usize> = match saved {
        Some((x, y)) => find_holding(monitors, x, y),
        None => None,
    };
    let by_name: Option<usize> = match &primary {
        Some(n) => find_named(monitors, n),
        None => None,
    };
    let index: usize = match by_position {
        Some(i) => i,
        None => match by_name {
            Some(i) => i,
            None => 0,
        },
    };
    assert(index as int == chosen_monitor(ms, saved, primary_view(primary)));
    let m = &monitors[index];
    let min_x: i64 = m.x as i64 + WINDOW_MARGIN;
    let min_y: i64 = m.y as i64 + WINDOW_MARGIN;
    let right: i64 = m.x as i64 + m.width as i64 - window_width as i64 - WINDOW_MARGIN;
    let bottom: i64 = m.y as i64 + m.height as i64 - window_height as i64 - WINDOW_MARGIN;
    let max_x: i64 = if right > min_x { right } else { min_x };
    let max_y: i64 = if bottom > min_y { bottom } else { min_y };
    match saved {
        Some((x, y)) => {
            let cx: i64 = if (x as i64) < min_x { min_x } else if (x as i64) > max_x { max_x } else { x as i64 };
            let cy: i64 = if (y as i64) < min_y { min_y } else if (y as i64) > max_y { max_y } else { y as i64 };
            Some((cx, cy))
        },
        None => Some((max_x, min_y)),
    }
}

/// A saved position that lies on a monitor far enough from its edges is kept as it is.
pub proof fn law_saved_position_inside_is_kept(
    window_width: u32,
    window_height: u32,
    ms: Seq<MonitorArea>,
    x: i32,
    y: i32,
    primary: Option<Option<Seq<char>>>,
)
    requires
        ms.len() > 0,
        ({
            let m = ms[chosen_monitor(ms, Some((x, y)), primary)];
            &&& m.x + WINDOW_MARGIN <= x <= m.x + m.width - window_width - WINDOW_MARGIN
            &&& m.y + WINDOW_MARGIN <= y <= m.y + m.height - window_height - WINDOW_MARGIN
        }),
    ensures
        placement_spec(window_width, window_height, ms, Some((x, y)), primary) == Some((x as i64, y as i64)),
{
}

proof fn lemma_first_holding(ms: Seq<MonitorArea>, x: int, y: int, i: int, from: int)
    requires
        0 <= from <= i < ms.len(),
        on_monitor(ms[i], x, y),
        forall|j: int| 0 <= j < i ==> !on_monitor(#[trigger] ms[j], x, y),
    ensures
        first_holding(ms, x, y, from) == Some(i),
    decreases i - from,
{
    if from < i {
        lemma_first_holding(ms, x, y, i, from + 1);
    }
}

/// A saved position that lies on a monitor keeps the window on that monitor (the first one
/// holding it), whichever monitor is the primary one: the window is placed at least 20 pixels
/// inside that monitor's left and top edges and, where the monitor is large enough, 20 pixels
/// inside its right and bottom edges with room for the window; a coordinate already in that
/// range is kept, one outside it is moved to the nearest end.
pub proof fn law_saved_position_stays_on_its_monitor(
    window_width: u32,
    window_height: u32,
    ms: Seq<MonitorArea>,
    x: i32,
    y: i32,
    primary: Option<Option<Seq<char>>>,
    i: int,
)
    requires
        0 <= i < ms.len(),
        on_monitor(ms[i], x as int, y as int),
        forall|j: int| 0 <= j < i ==> !on_monitor(#[trigger] ms[j], x as int, y as int),
    ensures
        placement_spec(window_width, window_height, ms, Some((x, y)), primary) matches Some(p) && {
            let m = ms[i];
            let lo_x = m.x + 20;
            let lo_y = m.y + 20;
            let hi_x = if m.x + m.width - window_width - 20 > lo_x { m.x + m.width - window_width - 20 } else { lo_x };
            let hi_y = if m.y + m.height - window_height - 20 > lo_y { m.y + m.height - window_height - 20 } else { lo_y };
            &&& lo_x <= p.0 <= hi_x
            &&& lo_y <= p.1 <= hi_y
            &&& (lo_x <= x <= hi_x ==> p.0 == x)
            &&& (x < lo_x ==> p.0 == lo_x)
            &&& (x > hi_x ==> p.0 == hi_x)
            &&& (lo_y <= y <= hi_y ==> p.1 == y)
            &&& (y < lo_y ==> p.1 == lo_y)
            &&& (y > hi_y ==> p.1 == hi_y)
        },
{
    lemma_first_holding(ms, x as int, y as int, i, 0);
}

} // verus!
