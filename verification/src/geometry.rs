//! Screen geometry in the form `slurp` and `grim` use (`x,y wxh`): the monitor
//! and window data it is computed from, reading it back, clipping a window's
//! box to the monitor layout, and the boxes offered for window selection.

use vstd::prelude::*;
use crate::text::{result_text, join, join_strings, texts, chars_of, decimal, lemma_decimal_chars, lemma_split_once_concat, law_parse_decimal_round_trip, is_digit, find_char, parse_i64, parse_i64_in, push_decimal, split_once, trim, trim_bounds};

verus! {

/// A monitor as the compositor reports it. `logical_width` and
/// `logical_height` are the reported width and height divided by the
/// monitor's scale and rounded (`None` where the size is missing); `transform`
/// is the rotation code, odd for a monitor turned by a quarter.
#[derive(Clone, Copy, Debug, PartialEq, Eq, Structural)]
pub struct Monitor {
    pub x: Option<i64>,
    pub y: Option<i64>,
    pub logical_width: Option<i64>,
    pub logical_height: Option<i64>,
    pub transform: Option<i64>,
    pub active_workspace: Option<i64>,
}

/// A window as the compositor reports it: the workspace it is on, its
/// position (`at_x`, `at_y`) and its size.
#[derive(Clone, Copy, Debug, PartialEq, Eq, Structural)]
pub struct Window {
    pub workspace: Option<i64>,
    pub at_x: Option<i64>,
    pub at_y: Option<i64>,
    pub width: Option<i64>,
    pub height: Option<i64>,
}

/// Why no geometry could be had.
#[derive(Clone, Copy, Debug, PartialEq, Eq, Structural)]
pub enum GeometryError {
    /// The geometry has no space between position and size.
    InvalidGeometry,
    /// The position has no comma.
    InvalidXy,
    /// The size has no `x`.
    InvalidWh,
    InvalidX,
    InvalidY,
    InvalidW,
    InvalidH,
    /// The monitor list was not a list.
    MonitorsNotArray,
    MissingAt0,
    MissingAt1,
    MissingSize0,
    MissingSize1,
    /// The active workspace has no id.
    NoActiveWorkspaceId,
    /// No monitor shows the active workspace.
    NoMonitorForActiveWorkspace,
    MissingWidth,
    MissingHeight,
    /// The user cancelled the selection.
    SelectionCancelled,
}

impl GeometryError {
    /// The error's text.
    pub fn message(&self) -> (s: String)
        ensures
            s@ == geometry_error_text(*self),
    {
        match self {
            GeometryError::InvalidGeometry => String::from_str("invalid geometry"),
            GeometryError::InvalidXy => String::from_str("invalid xy"),
            GeometryError::InvalidWh => String::from_str("invalid wh"),
            GeometryError::InvalidX => String::from_str("invalid x"),
            GeometryError::InvalidY => String::from_str("invalid y"),
            GeometryError::InvalidW => String::from_str("invalid w"),
            GeometryError::InvalidH => String::from_str("invalid h"),
            GeometryError::MonitorsNotArray => String::from_str("monitors not an array"),
            GeometryError::MissingAt0 => String::from_str("missing at[0]"),
            GeometryError::MissingAt1 => String::from_str("missing at[1]"),
            GeometryError::MissingSize0 => String::from_str("missing size[0]"),
            GeometryError::MissingSize1 => String::from_str("missing size[1]"),
            GeometryError::NoActiveWorkspaceId => String::from_str("no active workspace id"),
            GeometryError::NoMonitorForActiveWorkspace => String::from_str(
                "no monitor for active workspace",
            ),
            GeometryError::MissingWidth => String::from_str("missing width"),
            GeometryError::MissingHeight => String::from_str("missing height"),
            GeometryError::SelectionCancelled => String::from_str("selection cancelled"),
        }
    }
}

/// The text of each error.
pub open spec fn geometry_error_text(e: GeometryError) -> Seq<char> {
    match e {
        GeometryError::InvalidGeometry => "invalid geometry"@,
        GeometryError::InvalidXy => "invalid xy"@,
        GeometryError::InvalidWh => "invalid wh"@,
        GeometryError::InvalidX => "invalid x"@,
        GeometryError::InvalidY => "invalid y"@,
        GeometryError::InvalidW => "invalid w"@,
        GeometryError::InvalidH => "invalid h"@,
        GeometryError::MonitorsNotArray => "monitors not an array"@,
        GeometryError::MissingAt0 => "missing at[0]"@,
        GeometryError::MissingAt1 => "missing at[1]"@,
        GeometryError::MissingSize0 => "missing size[0]"@,
        GeometryError::MissingSize1 => "missing size[1]"@,
        GeometryError::NoActiveWorkspaceId => "no active workspace id"@,
        GeometryError::NoMonitorForActiveWorkspace => "no monitor for active workspace"@,
        GeometryError::MissingWidth => "missing width"@,
        GeometryError::MissingHeight => "missing height"@,
        GeometryError::SelectionCancelled => "selection cancelled"@,
    }
}

/// The geometry text `x,y wxh`, each number in decimal.
pub open spec fn geometry_text(x: int, y: int, w: int, h: int) -> Seq<char> {
    decimal(x) + seq![','] + decimal(y) + seq![' '] + decimal(w) + seq!['x'] + decimal(h)
}

/// The geometry text for the given numbers.
pub fn format_geometry(x: i128, y: i128, w: i128, h: i128) -> (s: String)
    requires
        x > i128::MIN,
        y > i128::MIN,
        w > i128::MIN,
        h > i128::MIN,
    ensures
        s@ == geometry_text(x as int, y as int, w as int, h as int),
{
    let mut s = String::new();
    push_decimal(&mut s, x);
    s.append(",");
    push_decimal(&mut s, y);
    s.append(" ");
    push_decimal(&mut s, w);
    s.append("x");
    push_decimal(&mut s, h);
    proof {
        reveal_strlit(",");
        reveal_strlit(" ");
        reveal_strlit("x");
        assert(s@ =~= geometry_text(x as int, y as int, w as int, h as int));
    }
    s
}

/// How a geometry text is read: position and size split at the first space,
/// the position at its first comma and the size at its first `x`, and each of
/// the four numbers, whitespace trimmed, read as an `i64`.
pub open spec fn read_geometry(g: Seq<char>) -> Result<(i64, i64, i64, i64), GeometryError> {
    match split_once(g, ' ') {
        None => Err(GeometryError::InvalidGeometry),
        Some((xy, wh)) => match split_once(xy, ',') {
            None => Err(GeometryError::InvalidXy),
            Some((xs, ys)) => match split_once(wh, 'x') {
                None => Err(GeometryError::InvalidWh),
                Some((ws, hs)) => match parse_i64(trim(xs)) {
                    None => Err(GeometryError::InvalidX),
                    Some(x) => match parse_i64(trim(ys)) {
                        None => Err(GeometryError::InvalidY),
                        Some(y) => match parse_i64(trim(ws)) {
                            None => Err(GeometryError::InvalidW),
                            Some(w) => match parse_i64(trim(hs)) {
                                None => Err(GeometryError::InvalidH),
                                Some(h) => Ok((x, y, w, h)),
                            },
                        },
                    },
                },
            },
        },
    }
}

fn parse_trimmed(s: &Vec<char>, lo: usize, hi: usize) -> (r: Option<i64>)
    requires
        lo <= hi <= s.len(),
    ensures
        r == parse_i64(trim(s@.subrange(lo as int, hi as int))),
{
    let (a, b) = trim_bounds(s, lo, hi);
    parse_i64_in(s, a, b)
}

/// The position and size that a geometry text gives.
pub fn parse_geometry(geometry: &str) -> (r: Result<(i64, i64, i64, i64), GeometryError>)
    ensures
        r == read_geometry(geometry@),
{
    let g = chars_of(geometry);
    let n = g.len();
    assert(g@.subrange(0, n as int) =~= g@);
    let space = match find_char(&g, 0, n, ' ') {
        Some(i) => i,
        None => return Err(GeometryError::InvalidGeometry),
    };
    let comma = match find_char(&g, 0, space, ',') {
        Some(i) => i,
        None => return Err(GeometryError::InvalidXy),
    };
    let times = match find_char(&g, space + 1, n, 'x') {
        Some(i) => i,
        None => return Err(GeometryError::InvalidWh),
    };
    let x = match parse_trimmed(&g, 0, comma) {
        Some(v) => v,
        None => return Err(GeometryError::InvalidX),
    };
    let y = match parse_trimmed(&g, comma + 1, space) {
        Some(v) => v,
        None => return Err(GeometryError::InvalidY),
    };
    let w = match parse_trimmed(&g, space + 1, times) {
        Some(v) => v,
        None => return Err(GeometryError::InvalidW),
    };
    let h = match parse_trimmed(&g, times + 1, n) {
        Some(v) => v,
        None => return Err(GeometryError::InvalidH),
    };
    Ok((x, y, w, h))
}

/// A reported number, or zero where it is missing.
pub open spec fn or_zero(v: Option<i64>) -> int {
    match v {
        Some(n) => n as int,
        None => 0,
    }
}

fn value_or_zero(v: Option<i64>) -> (r: i64)
    ensures
        r == or_zero(v),
{
    match v {
        Some(n) => n,
        None => 0,
    }
}

/// The logical width and height a monitor covers in the layout: its logical
/// size (zero where missing), the two swapped for an odd transform.
pub open spec fn monitor_extent(m: Monitor) -> (int, int) {
    let lw = or_zero(m.logical_width);
    let lh = or_zero(m.logical_height);
    if or_zero(m.transform) % 2 == 0 {
        (lw, lh)
    } else {
        (lh, lw)
    }
}

/// The bounding box of the monitor layout, as `(max_x, max_y, min_x, min_y)`:
/// the largest right and bottom edges and the smallest left and top edges of
/// the monitors (a missing position counting as zero). Without monitors it is
/// `(i64::MIN, i64::MIN, i64::MAX, i64::MAX)`.
pub open spec fn layout_bounds(ms: Seq<Monitor>) -> (int, int, int, int)
    decreases ms.len(),
{
    if ms.len() == 0 {
        (i64::MIN as int, i64::MIN as int, i64::MAX as int, i64::MAX as int)
    } else {
        let acc = layout_bounds(ms.drop_last());
        let m = ms.last();
        let mx = or_zero(m.x);
        let my = or_zero(m.y);
        let (lw, lh) = monitor_extent(m);
        (
            if acc.0 >= mx + lw { acc.0 } else { mx + lw },
            if acc.1 >= my + lh { acc.1 } else { my + lh },
            if acc.2 <= mx { acc.2 } else { mx },
            if acc.3 <= my { acc.3 } else { my },
        )
    }
}

proof fn lemma_layout_bounds_range(ms: Seq<Monitor>)
    ensures
        i64::MIN <= layout_bounds(ms).0 <= 2 * (i64::MAX as int),
        i64::MIN <= layout_bounds(ms).1 <= 2 * (i64::MAX as int),
        i64::MIN <= layout_bounds(ms).2 <= i64::MAX,
        i64::MIN <= layout_bounds(ms).3 <= i64::MAX,
    decreases ms.len(),
{
    if ms.len() > 0 {
        lemma_layout_bounds_range(ms.drop_last());
    }
}

/// The bounding box of the monitor layout.
pub fn layout_bounds_of(monitors: &Vec<Monitor>) -> (b: (i128, i128, i128, i128))
    ensures
        (b.0 as int, b.1 as int, b.2 as int, b.3 as int) == layout_bounds(monitors@),
{
    let mut max_x: i128 = i64::MIN as i128;
    let mut max_y: i128 = i64::MIN as i128;
    let mut min_x: i128 = i64::MAX as i128;
    let mut min_y: i128 = i64::MAX as i128;
    let mut i: usize = 0;
    while i < monitors.len()
        invariant
            0 <= i <= monitors.len(),
            (max_x as int, max_y as int, min_x as int, min_y as int) == layout_bounds(
                monitors@.take(i as int),
            ),
        decreases monitors.len() - i,
    {
        proof {
            lemma_layout_bounds_range(monitors@.take(i as int));
            assert(monitors@.take(i + 1).drop_last() =~= monitors@.take(i as int));
        }
        let m = &monitors[i];
        let mx = value_or_zero(m.x) as i128;
        let my = value_or_zero(m.y) as i128;
        let lw = value_or_zero(m.logical_width) as i128;
        let lh = value_or_zero(m.logical_height) as i128;
        let (ew, eh) = if value_or_zero(m.transform) % 2 == 0 {
            (lw, lh)
        } else {
            (lh, lw)
        };
        if mx + ew > max_x {
            max_x = mx + ew;
        }
        if my + eh > max_y {
            max_y = my + eh;
        }
        if mx < min_x {
            min_x = mx;
        }
        if my < min_y {
            min_y = my;
        }
        i = i + 1;
    }
    assert(monitors@.take(i as int) =~= monitors@);
    (max_x, max_y, min_x, min_y)
}

/// A box clipped to a bounding box `(max_x, max_y, min_x, min_y)`: a right
/// (bottom) edge beyond the bound is brought back to it, then a left (top)
/// edge before the bound is moved up to it and the width (height) shrunk by
/// as much.
pub open spec fn clip_box(x: int, y: int, w: int, h: int, b: (int, int, int, int)) -> (
    int,
    int,
    int,
    int,
) {
    let (max_x, max_y, min_x, min_y) = b;
    let cw = if x + w > max_x { max_x - x } else { w };
    let ch = if y + h > max_y { max_y - y } else { h };
    let (cx, cw2) = if x < min_x { (min_x, cw + (x - min_x)) } else { (x, cw) };
    let (cy, ch2) = if y < min_y { (min_y, ch + (y - min_y)) } else { (y, ch) };
    (cx, cy, cw2, ch2)
}

/// The geometry text of a box clipped to the layout of the given monitors
/// (`None` where the monitor list was not a list). The numbers are computed
/// exactly; they are written as `i64`s would be wherever they fit one.
pub open spec fn clipped_geometry(
    x: i64,
    y: i64,
    w: i64,
    h: i64,
    monitors: Option<Seq<Monitor>>,
) -> Result<Seq<char>, GeometryError> {
    match monitors {
        None => Err(GeometryError::MonitorsNotArray),
        Some(ms) => {
            let c = clip_box(x as int, y as int, w as int, h as int, layout_bounds(ms));
            Ok(geometry_text(c.0, c.1, c.2, c.3))
        },
    }
}

/// The monitors of an optional list, as a sequence.
pub open spec fn monitors_view(monitors: Option<Vec<Monitor>>) -> Option<Seq<Monitor>> {
    match monitors {
        Some(v) => Some(v@),
        None => None,
    }
}

/// A window's box clipped to the logical bounds of the monitor layout: the
/// compositor reports logical coordinates, but a window can extend outside
/// the visible area.
pub fn clip_geometry(x: i64, y: i64, w: i64, h: i64, monitors: &Option<Vec<Monitor>>) -> (r:
    Result<String, GeometryError>)
    ensures
        result_text(r) == clipped_geometry(x, y, w, h, monitors_view(*monitors)),
{
    let ms = match monitors {
        Some(ms) => ms,
        None => return Err(GeometryError::MonitorsNotArray),
    };
    let (max_x, max_y, min_x, min_y) = layout_bounds_of(ms);
    proof {
        lemma_layout_bounds_range(ms@);
    }
    let x = x as i128;
    let y = y as i128;
    let mut cx = x;
    let mut cy = y;
    let mut cw = w as i128;
    let mut ch = h as i128;
    if x + cw > max_x {
        cw = max_x - x;
    }
    if y + ch > max_y {
        ch = max_y - y;
    }
    if x < min_x {
        cx = min_x;
        cw = cw + (x - min_x);
    }
    if y < min_y {
        cy = min_y;
        ch = ch + (y - min_y);
    }
    Ok(format_geometry(cx, cy, cw, ch))
}

/// What clipping a window's geometry text to the monitor layout gives: the
/// text read as by `read_geometry`, then the box clipped as by
/// `clipped_geometry`.
pub open spec fn trimmed_geometry(g: Seq<char>, monitors: Option<Seq<Monitor>>) -> Result<
    Seq<char>,
    GeometryError,
> {
    match read_geometry(g) {
        Err(e) => Err(e),
        Ok((x, y, w, h)) => clipped_geometry(x, y, w, h, monitors),
    }
}

/// A window's geometry text clipped to the logical bounds of the monitor
/// layout.
pub fn trim_geometry(geometry: &str, monitors: &Option<Vec<Monitor>>) -> (r: Result<
    String,
    GeometryError,
>)
    ensures
        result_text(r) == trimmed_geometry(geometry@, monitors_view(*monitors)),
{
    let (x, y, w, h) = parse_geometry(geometry)?;
    clip_geometry(x, y, w, h, monitors)
}

/// A clipped box lies within the bounding box it was clipped to: its left
/// (top) edge is not before the bound and its right (bottom) edge not beyond.
pub proof fn law_clip_within_bounds(x: int, y: int, w: int, h: int, b: (int, int, int, int))
    ensures
        ({
            let c = clip_box(x, y, w, h, b);
            &&& b.2 <= c.0
            &&& c.0 + c.2 <= b.0
            &&& b.3 <= c.1
            &&& c.1 + c.3 <= b.1
        }),
{
}

/// A box that already lies within the bounding box is left as it is.
pub proof fn law_clip_keeps_inside(x: int, y: int, w: int, h: int, b: (int, int, int, int))
    requires
        b.2 <= x,
        x + w <= b.0,
        b.3 <= y,
        y + h <= b.1,
    ensures
        clip_box(x, y, w, h, b) == (x, y, w, h),
{
}

/// Clipping a clipped box changes nothing more.
pub proof fn law_clip_idempotent(x: int, y: int, w: int, h: int, b: (int, int, int, int))
    ensures
        ({
            let c = clip_box(x, y, w, h, b);
            clip_box(c.0, c.1, c.2, c.3, b) == c
        }),
{
    let c = clip_box(x, y, w, h, b);
    law_clip_within_bounds(x, y, w, h, b);
    law_clip_keeps_inside(c.0, c.1, c.2, c.3, b);
}

/// The layout's bounding box encloses every monitor of the layout.
pub proof fn law_layout_encloses_monitors(ms: Seq<Monitor>, i: int)
    requires
        0 <= i < ms.len(),
    ensures
        ({
            let b = layout_bounds(ms);
            let m = ms[i];
            let e = monitor_extent(m);
            &&& b.2 <= or_zero(m.x)
            &&& or_zero(m.x) + e.0 <= b.0
            &&& b.3 <= or_zero(m.y)
            &&& or_zero(m.y) + e.1 <= b.1
        }),
    decreases ms.len(),
{
    if i < ms.len() - 1 {
        law_layout_encloses_monitors(ms.drop_last(), i);
        assert(ms.drop_last()[i] == ms[i]);
    }
}

/// Reading a geometry text gives back the numbers it was written from.
pub proof fn law_read_geometry_text(x: i64, y: i64, w: i64, h: i64)
    ensures
        read_geometry(geometry_text(x as int, y as int, w as int, h as int)) == Ok::<_, GeometryError>((x, y, w, h)),
{
    let dx = decimal(x as int);
    let dy = decimal(y as int);
    let dw = decimal(w as int);
    let dh = decimal(h as int);
    lemma_decimal_chars(x as int);
    lemma_decimal_chars(y as int);
    lemma_decimal_chars(w as int);
    lemma_decimal_chars(h as int);
    law_parse_decimal_round_trip(x);
    law_parse_decimal_round_trip(y);
    law_parse_decimal_round_trip(w);
    law_parse_decimal_round_trip(h);
    let xy = dx + seq![','] + dy;
    let wh = dw + seq!['x'] + dh;
    assert(geometry_text(x as int, y as int, w as int, h as int) =~= xy + seq![' '] + wh);
    assert forall|i: int| 0 <= i < xy.len() implies xy[i] != ' ' by {
        if i < dx.len() {
            assert(is_digit(dx[i]) || dx[i] == '-');
        } else if i > dx.len() {
            assert(is_digit(dy[i - dx.len() - 1]) || dy[i - dx.len() - 1] == '-');
        }
    }
    lemma_split_once_concat(xy, ' ', wh);
    assert forall|i: int| 0 <= i < dx.len() implies dx[i] != ',' by {
        assert(is_digit(dx[i]) || dx[i] == '-');
    }
    lemma_split_once_concat(dx, ',', dy);
    assert forall|i: int| 0 <= i < dw.len() implies dw[i] != 'x' by {
        assert(is_digit(dw[i]) || dw[i] == '-');
    }
    lemma_split_once_concat(dw, 'x', dh);
}

/// A window geometry that already lies within the monitor layout comes back
/// from clipping unchanged, text for text.
pub proof fn law_trim_keeps_inside_geometry(x: i64, y: i64, w: i64, h: i64, ms: Seq<Monitor>)
    requires
        layout_bounds(ms).2 <= x,
        x + w <= layout_bounds(ms).0,
        layout_bounds(ms).3 <= y,
        y + h <= layout_bounds(ms).1,
    ensures
        trimmed_geometry(geometry_text(x as int, y as int, w as int, h as int), Some(ms)) == Ok::<_, GeometryError>(
            geometry_text(x as int, y as int, w as int, h as int),
        ),
{
    law_read_geometry_text(x, y, w, h);
    law_clip_keeps_inside(x as int, y as int, w as int, h as int, layout_bounds(ms));
}

/// The box offered for a window: its position and size, each missing
/// number counting as zero.
pub open spec fn window_box(w: Window) -> Seq<char> {
    geometry_text(or_zero(w.at_x), or_zero(w.at_y), or_zero(w.width), or_zero(w.height))
}

/// The workspaces that the monitors show, in monitor order, a monitor without
/// one contributing nothing.
pub open spec fn active_workspaces(ms: Seq<Monitor>) -> Seq<i64>
    decreases ms.len(),
{
    if ms.len() == 0 {
        Seq::empty()
    } else {
        let rest = active_workspaces(ms.drop_last());
        match ms.last().active_workspace {
            Some(id) => rest.push(id),
            None => rest,
        }
    }
}

/// Whether a window is on one of the given workspaces.
pub open spec fn on_workspaces(w: Window, ids: Seq<i64>) -> bool {
    match w.workspace {
        Some(id) => ids.contains(id),
        None => false,
    }
}

/// The boxes of the windows on the given workspaces, in window order.
pub open spec fn boxes_on(ws: Seq<Window>, ids: Seq<i64>) -> Seq<Seq<char>>
    decreases ws.len(),
{
    if ws.len() == 0 {
        Seq::empty()
    } else {
        let rest = boxes_on(ws.drop_last(), ids);
        if on_workspaces(ws.last(), ids) {
            rest.push(window_box(ws.last()))
        } else {
            rest
        }
    }
}

/// The workspaces shown by the monitors of a list (none where the monitor
/// list was not a list).
pub fn active_workspace_ids(monitors: &Option<Vec<Monitor>>) -> (ids: Vec<i64>)
    ensures
        ids@ == match monitors_view(*monitors) {
            Some(ms) => active_workspaces(ms),
            None => Seq::empty(),
        },
{
    let mut ids: Vec<i64> = Vec::new();
    let ms = match monitors {
        Some(ms) => ms,
        None => return ids,
    };
    let mut i: usize = 0;
    while i < ms.len()
        invariant
            0 <= i <= ms.len(),
            ids@ == active_workspaces(ms@.take(i as int)),
        decreases ms.len() - i,
    {
        assert(ms@.take(i + 1).drop_last() =~= ms@.take(i as int));
        match ms[i].active_workspace {
            Some(id) => ids.push(id),
            None => {},
        }
        i = i + 1;
    }
    assert(ms@.take(i as int) =~= ms@);
    ids
}

fn contains_id(ids: &Vec<i64>, id: i64) -> (b: bool)
    ensures
        b == ids@.contains(id),
{
    let mut i: usize = 0;
    while i < ids.len()
        invariant
            0 <= i <= ids.len(),
            forall|j: int| 0 <= j < i ==> ids@[j] != id,
        decreases ids.len() - i,
    {
        if ids[i] == id {
            assert(ids@[i as int] == id);
            return true;
        }
        i = i + 1;
    }
    false
}

/// The boxes offered for window selection, one per line: those of the
/// windows on the given workspaces (none where the window list was not a
/// list).
pub fn window_selection_input(ids: &Vec<i64>, windows: &Option<Vec<Window>>) -> (s: String)
    ensures
        s@ == join(
            match windows {
                Some(ws) => boxes_on(ws@, ids@),
                None => Seq::empty(),
            },
            seq!['\n'],
        ),
{
    let mut boxes: Vec<String> = Vec::new();
    match windows {
        Some(ws) => {
            let mut i: usize = 0;
            while i < ws.len()
                invariant
                    0 <= i <= ws.len(),
                    texts(boxes@) == boxes_on(ws@.take(i as int), ids@),
                decreases ws.len() - i,
            {
                assert(ws@.take(i + 1).drop_last() =~= ws@.take(i as int));
                let w = &ws[i];
                let on = match w.workspace {
                    Some(id) => contains_id(ids, id),
                    None => false,
                };
                if on {
                    let b = format_geometry(
                        value_or_zero(w.at_x) as i128,
                        value_or_zero(w.at_y) as i128,
                        value_or_zero(w.width) as i128,
                        value_or_zero(w.height) as i128,
                    );
                    let ghost before = boxes@;
                    boxes.push(b);
                    assert(texts(boxes@) =~= texts(before).push(window_box(ws@[i as int])));
                }
                i = i + 1;
            }
            assert(ws@.take(i as int) =~= ws@);
        },
        None => {
            assert(texts(boxes@) =~= Seq::<Seq<char>>::empty());
        },
    }
    let r = join_strings(&boxes, "\n");
    proof {
        reveal_strlit("\n");
        assert("\n"@ =~= seq!['\n']);
    }
    r
}

/// The geometry of the focused window: its position and size, each of which
/// must be reported.
pub open spec fn active_window_geometry(w: Window) -> Result<Seq<char>, GeometryError> {
    match w.at_x {
        None => Err(GeometryError::MissingAt0),
        Some(x) => match w.at_y {
            None => Err(GeometryError::MissingAt1),
            Some(y) => match w.width {
                None => Err(GeometryError::MissingSize0),
                Some(ww) => match w.height {
                    None => Err(GeometryError::MissingSize1),
                    Some(hh) => Ok(geometry_text(x as int, y as int, ww as int, hh as int)),
                },
            },
        },
    }
}

/// The geometry of the focused window.
pub fn geometry_active_window(w: &Window) -> (r: Result<String, GeometryError>)
    ensures
        result_text(r) == active_window_geometry(*w),
{
    let x = match w.at_x {
        Some(v) => v,
        None => return Err(GeometryError::MissingAt0),
    };
    let y = match w.at_y {
        Some(v) => v,
        None => return Err(GeometryError::MissingAt1),
    };
    let ww = match w.width {
        Some(v) => v,
        None => return Err(GeometryError::MissingSize0),
    };
    let hh = match w.height {
        Some(v) => v,
        None => return Err(GeometryError::MissingSize1),
    };
    Ok(format_geometry(x as i128, y as i128, ww as i128, hh as i128))
}

/// The geometry of a monitor: its position (a missing coordinate counting as
/// zero) and its logical size, which must be reported.
pub open spec fn monitor_geometry_text(m: Monitor) -> Result<Seq<char>, GeometryError> {
    match m.logical_width {
        None => Err(GeometryError::MissingWidth),
        Some(w) => match m.logical_height {
            None => Err(GeometryError::MissingHeight),
            Some(h) => Ok(geometry_text(or_zero(m.x), or_zero(m.y), w as int, h as int)),
        },
    }
}

/// The geometry of a monitor.
pub fn monitor_geometry(m: &Monitor) -> (r: Result<String, GeometryError>)
    ensures
        result_text(r) == monitor_geometry_text(*m),
{
    let x = value_or_zero(m.x);
    let y = value_or_zero(m.y);
    let w = match m.logical_width {
        Some(v) => v,
        None => return Err(GeometryError::MissingWidth),
    };
    let h = match m.logical_height {
        Some(v) => v,
        None => return Err(GeometryError::MissingHeight),
    };
    Ok(format_geometry(x as i128, y as i128, w as i128, h as i128))
}

/// The first monitor, in list order, that shows the workspace `id`.
pub open spec fn monitor_showing(ms: Seq<Monitor>, id: i64) -> Option<Monitor>
    decreases ms.len(),
{
    if ms.len() == 0 {
        None
    } else if ms[0].active_workspace == Some(id) {
        Some(ms[0])
    } else {
        monitor_showing(ms.drop_first(), id)
    }
}

/// The geometry of the monitor that shows the active workspace `id`.
pub open spec fn active_output_geometry(id: i64, monitors: Option<Seq<Monitor>>) -> Result<
    Seq<char>,
    GeometryError,
> {
    match monitors {
        None => Err(GeometryError::NoMonitorForActiveWorkspace),
        Some(ms) => match monitor_showing(ms, id) {
            None => Err(GeometryError::NoMonitorForActiveWorkspace),
            Some(m) => monitor_geometry_text(m),
        },
    }
}

/// The geometry of the monitor that shows the active workspace `id`.
pub fn geometry_active_output(id: i64, monitors: &Option<Vec<Monitor>>) -> (r: Result<
    String,
    GeometryError,
>)
    ensures
        result_text(r) == active_output_geometry(id, monitors_view(*monitors)),
{
    let ms = match monitors {
        Some(ms) => ms,
        None => return Err(GeometryError::NoMonitorForActiveWorkspace),
    };
    let mut i: usize = 0;
    assert(ms@.skip(0) =~= ms@);
    while i < ms.len()
        invariant
            0 <= i <= ms.len(),
            monitors_view(*monitors) == Some(ms@),
            monitor_showing(ms@, id) == monitor_showing(ms@.skip(i as int), id),
        decreases ms.len() - i,
    {
        assert(ms@.skip(i as int).drop_first() =~= ms@.skip(i + 1));
        assert(ms@.skip(i as int)[0] == ms@[i as int]);
        let shows = match ms[i].active_workspace {
            Some(w) => w == id,
            None => false,
        };
        if shows {
            return monitor_geometry(&ms[i]);
        }
        i = i + 1;
    }
    Err(GeometryError::NoMonitorForActiveWorkspace)
}

/// The width a monitor takes in the layout: its logical width, or its
/// logical height where it is turned by a quarter (odd transform).
pub open spec fn layout_width(m: Monitor) -> int {
    if or_zero(m.transform) % 2 == 0 {
        or_zero(m.logical_width)
    } else {
        or_zero(m.logical_height)
    }
}

/// The height a monitor takes in the layout.
pub open spec fn layout_height(m: Monitor) -> int {
    if or_zero(m.transform) % 2 == 0 {
        or_zero(m.logical_height)
    } else {
        or_zero(m.logical_width)
    }
}

/// The layout's bounding box is tight: its left and top edges are those of
/// some monitor, and its right and bottom edges are those of some monitor
/// (unless every monitor's edge lies at or below `i64::MIN`, where the bound
/// stays at `i64::MIN`). Without monitors it is
/// `(i64::MIN, i64::MIN, i64::MAX, i64::MAX)`.
pub proof fn law_layout_bounds_attained(ms: Seq<Monitor>)
    ensures
        ms.len() == 0 ==> layout_bounds(ms) == (
            i64::MIN as int,
            i64::MIN as int,
            i64::MAX as int,
            i64::MAX as int,
        ),
        ms.len() > 0 ==> exists|i: int|
            0 <= i < ms.len() && layout_bounds(ms).2 == or_zero(#[trigger] ms[i].x),
        ms.len() > 0 ==> exists|i: int|
            0 <= i < ms.len() && layout_bounds(ms).3 == or_zero(#[trigger] ms[i].y),
        (exists|i: int|
            0 <= i < ms.len() && layout_bounds(ms).0 == or_zero(ms[i].x) + layout_width(
                #[trigger] ms[i],
            )) || (layout_bounds(ms).0 == i64::MIN && forall|i: int|
            0 <= i < ms.len() ==> or_zero(ms[i].x) + layout_width(#[trigger] ms[i]) <= i64::MIN),
        (exists|i: int|
            0 <= i < ms.len() && layout_bounds(ms).1 == or_zero(ms[i].y) + layout_height(
                #[trigger] ms[i],
            )) || (layout_bounds(ms).1 == i64::MIN && forall|i: int|
            0 <= i < ms.len() ==> or_zero(ms[i].y) + layout_height(#[trigger] ms[i]) <= i64::MIN),
    decreases ms.len(),
{
    if ms.len() > 0 {
        let front = ms.drop_last();
        let n = ms.len() - 1;
        law_layout_bounds_attained(front);
        let b = layout_bounds(front);
        let m = ms[n];
        assert(ms.last() == m);
        assert forall|i: int| 0 <= i < front.len() implies front[i] == ms[i] by {}
        if front.len() == 0 {
            assert(layout_bounds(ms).2 == or_zero(ms[0].x));
            assert(layout_bounds(ms).3 == or_zero(ms[0].y));
        } else {
            if layout_bounds(ms).2 != or_zero(ms[n].x) {
                let i = choose|i: int| 0 <= i < front.len() && b.2 == or_zero(#[trigger] front[i].x);
                assert(layout_bounds(ms).2 == or_zero(ms[i].x));
            } else {
                assert(layout_bounds(ms).2 == or_zero(ms[n].x));
            }
            if layout_bounds(ms).3 != or_zero(ms[n].y) {
                let i = choose|i: int| 0 <= i < front.len() && b.3 == or_zero(#[trigger] front[i].y);
                assert(layout_bounds(ms).3 == or_zero(ms[i].y));
            } else {
                assert(layout_bounds(ms).3 == or_zero(ms[n].y));
            }
        }
        let rx = or_zero(m.x) + layout_width(m);
        let ry = or_zero(m.y) + layout_height(m);
        if layout_bounds(ms).0 == rx {
            assert(layout_bounds(ms).0 == or_zero(ms[n].x) + layout_width(ms[n]));
        } else {
            assert(layout_bounds(ms).0 == b.0 && b.0 > rx);
            if exists|i: int|
                0 <= i < front.len() && b.0 == or_zero(front[i].x) + layout_width(#[trigger] front[i]) {
                let i = choose|i: int|
                    0 <= i < front.len() && b.0 == or_zero(front[i].x) + layout_width(#[trigger] front[i]);
                assert(layout_bounds(ms).0 == or_zero(ms[i].x) + layout_width(ms[i]));
            } else {
                assert forall|i: int| 0 <= i < ms.len() implies or_zero(ms[i].x) + layout_width(
                    #[trigger] ms[i],
                ) <= i64::MIN by {
                    if i < n {
                        assert(or_zero(front[i].x) + layout_width(front[i]) <= i64::MIN);
                    }
                }
            }
        }
        if layout_bounds(ms).1 == ry {
            assert(layout_bounds(ms).1 == or_zero(ms[n].y) + layout_height(ms[n]));
        } else {
            assert(layout_bounds(ms).1 == b.1 && b.1 > ry);
            if exists|i: int|
                0 <= i < front.len() && b.1 == or_zero(front[i].y) + layout_height(#[trigger] front[i]) {
                let i = choose|i: int|
                    0 <= i < front.len() && b.1 == or_zero(front[i].y) + layout_height(#[trigger] front[i]);
                assert(layout_bounds(ms).1 == or_zero(ms[i].y) + layout_height(ms[i]));
            } else {
                assert forall|i: int| 0 <= i < ms.len() implies or_zero(ms[i].y) + layout_height(
                    #[trigger] ms[i],
                ) <= i64::MIN by {
                    if i < n {
                        assert(or_zero(front[i].y) + layout_height(front[i]) <= i64::MIN);
                    }
                }
            }
        }
    }
}

/// Every monitor lies within the layout's bounding box, measured with the
/// layout size of each monitor.
pub proof fn law_layout_bounds_enclose(ms: Seq<Monitor>, i: int)
    requires
        0 <= i < ms.len(),
    ensures
        layout_bounds(ms).2 <= or_zero(ms[i].x),
        or_zero(ms[i].x) + layout_width(ms[i]) <= layout_bounds(ms).0,
        layout_bounds(ms).3 <= or_zero(ms[i].y),
        or_zero(ms[i].y) + layout_height(ms[i]) <= layout_bounds(ms).1,
    decreases ms.len(),
{
    if i < ms.len() - 1 {
        law_layout_bounds_enclose(ms.drop_last(), i);
        assert(ms.drop_last()[i] == ms[i]);
    }
}

/// Whether a window's workspace is one of `ids`, read from its fields.
spec fn shown_on(w: Window, ids: Seq<i64>) -> bool {
    w.workspace is Some && ids.contains(w.workspace->0)
}

proof fn offered_positions(ws: Seq<Window>, ids: Seq<i64>) -> (pos: Seq<int>)
    ensures
        pos.len() == boxes_on(ws, ids).len(),
        forall|k: int|
            0 <= k < pos.len() ==> 0 <= #[trigger] pos[k] < ws.len() && shown_on(ws[pos[k]], ids)
                && boxes_on(ws, ids)[k] == window_box(ws[pos[k]]),
        forall|k1: int, k2: int| 0 <= k1 < k2 < pos.len() ==> pos[k1] < pos[k2],
        forall|i: int|
            0 <= i < ws.len() && shown_on(#[trigger] ws[i], ids) ==> exists|k: int|
                0 <= k < pos.len() && pos[k] == i,
    decreases ws.len(),
{
    if ws.len() == 0 {
        Seq::empty()
    } else {
        let front = ws.drop_last();
        let n = ws.len() - 1;
        let p = offered_positions(front, ids);
        assert forall|i: int| 0 <= i < front.len() implies front[i] == ws[i] by {}
        let w = ws.last();
        let on = match w.workspace {
            Some(id) => ids.contains(id),
            None => false,
        };
        if on {
            let q = p.push(n);
            assert forall|i: int| 0 <= i < ws.len() && shown_on(#[trigger] ws[i], ids) implies exists|k: int|
                0 <= k < q.len() && q[k] == i by {
                if i < n {
                    assert(shown_on(front[i], ids));
                    let k = choose|k: int| 0 <= k < p.len() && p[k] == i;
                    assert(q[k] == i);
                } else {
                    assert(q[p.len() as int] == i);
                }
            }
            assert forall|k: int| 0 <= k < q.len() implies 0 <= #[trigger] q[k] < ws.len()
                && shown_on(ws[q[k]], ids) && boxes_on(ws, ids)[k] == window_box(ws[q[k]]) by {
                if k < p.len() {
                    assert(q[k] == p[k]);
                    assert(shown_on(front[p[k]], ids));
                }
            }
            q
        } else {
            assert forall|i: int| 0 <= i < ws.len() && shown_on(#[trigger] ws[i], ids) implies exists|k: int|
                0 <= k < p.len() && p[k] == i by {
                if i < n {
                    assert(shown_on(front[i], ids));
                }
            }
            assert forall|k: int| 0 <= k < p.len() implies 0 <= #[trigger] p[k] < ws.len()
                && shown_on(ws[p[k]], ids) && boxes_on(ws, ids)[k] == window_box(ws[p[k]]) by {
                assert(shown_on(front[p[k]], ids));
            }
            p
        }
    }
}

/// Whether `pos` picks out, in increasing order, exactly the windows of
/// `ws` whose workspace is one of `ids`, and `boxes` are their boxes in that
/// order.
pub open spec fn offers_in_order(
    boxes: Seq<Seq<char>>,
    ws: Seq<Window>,
    ids: Seq<i64>,
    pos: Seq<int>,
) -> bool {
    &&& pos.len() == boxes.len()
    &&& forall|k: int|
        0 <= k < pos.len() ==> 0 <= #[trigger] pos[k] < ws.len() && ws[pos[k]].workspace is Some
            && ids.contains(ws[pos[k]].workspace->0) && boxes[k] == window_box(ws[pos[k]])
    &&& forall|k1: int, k2: int| 0 <= k1 < k2 < pos.len() ==> pos[k1] < pos[k2]
    &&& forall|i: int|
        0 <= i < ws.len() && (#[trigger] ws[i]).workspace is Some && ids.contains(
            ws[i].workspace->0,
        ) ==> exists|k: int| 0 <= k < pos.len() && pos[k] == i
}

/// The boxes offered for selection are exactly those of the windows whose
/// workspace is one of the active ones, in window order: each offered box
/// is the box of such a window, later boxes come from later windows, and
/// every such window has its box offered.
pub proof fn law_offered_boxes_are_active_windows(ws: Seq<Window>, ids: Seq<i64>)
    ensures
        exists|pos: Seq<int>| offers_in_order(boxes_on(ws, ids), ws, ids, pos),
{
    let pos = offered_positions(ws, ids);
    assert forall|i: int|
        0 <= i < ws.len() && (#[trigger] ws[i]).workspace is Some && ids.contains(
            ws[i].workspace->0,
        ) implies exists|k: int| 0 <= k < pos.len() && pos[k] == i by {
        assert(shown_on(ws[i], ids));
    }
    assert(offers_in_order(boxes_on(ws, ids), ws, ids, pos));
}

/// The active workspaces are exactly those that some monitor shows.
pub proof fn law_active_workspaces_are_shown(ms: Seq<Monitor>)
    ensures
        forall|k: int|
            0 <= k < active_workspaces(ms).len() ==> exists|i: int|
                0 <= i < ms.len() && ms[i].active_workspace == Some(
                    #[trigger] active_workspaces(ms)[k],
                ),
        forall|i: int|
            0 <= i < ms.len() && (#[trigger] ms[i]).active_workspace is Some
                ==> active_workspaces(ms).contains(ms[i].active_workspace->0),
    decreases ms.len(),
{
    if ms.len() > 0 {
        let front = ms.drop_last();
        let n = ms.len() - 1;
        law_active_workspaces_are_shown(front);
        let rest = active_workspaces(front);
        let out = active_workspaces(ms);
        assert forall|i: int| 0 <= i < front.len() implies front[i] == ms[i] by {}
        assert forall|k: int| 0 <= k < out.len() implies exists|i: int|
            0 <= i < ms.len() && ms[i].active_workspace == Some(#[trigger] out[k]) by {
            if k < rest.len() {
                assert(out[k] == rest[k]);
                let i = choose|i: int| 0 <= i < front.len() && front[i].active_workspace == Some(rest[k]);
                assert(ms[i].active_workspace == Some(out[k]));
            } else {
                assert(ms[n].active_workspace == Some(out[k]));
            }
        }
        assert forall|i: int| 0 <= i < ms.len() && (#[trigger] ms[i]).active_workspace is Some
            implies out.contains(ms[i].active_workspace->0) by {
            if i < n {
                assert(front[i].active_workspace is Some);
                assert(rest.contains(front[i].active_workspace->0));
                let k = choose|k: int| 0 <= k < rest.len() && rest[k] == front[i].active_workspace->0;
                assert(out[k] == rest[k]);
            } else {
                assert(out[out.len() - 1] == ms[n].active_workspace->0);
            }
        }
    }
}

/// The monitor found for a workspace shows it, and no earlier monitor does;
/// where none is found, no monitor shows it.
pub proof fn law_monitor_showing_is_first(ms: Seq<Monitor>, id: i64)
    ensures
        monitor_showing(ms, id) matches Some(m) ==> exists|i: int|
            0 <= i < ms.len() && ms[i] == m && m.active_workspace == Some(id) && forall|j: int|
                0 <= j < i ==> (#[trigger] ms[j]).active_workspace != Some(id),
        monitor_showing(ms, id) is None ==> forall|i: int|
            0 <= i < ms.len() ==> (#[trigger] ms[i]).active_workspace != Some(id),
    decreases ms.len(),
{
    if ms.len() > 0 {
        let tail = ms.drop_first();
        law_monitor_showing_is_first(tail, id);
        assert forall|i: int| 0 <= i < tail.len() implies tail[i] == ms[i + 1] by {}
        if ms[0].active_workspace != Some(id) {
            if let Some(m) = monitor_showing(ms, id) {
                let i = choose|i: int|
                    0 <= i < tail.len() && tail[i] == m && m.active_workspace == Some(id) && forall|j: int|
                        0 <= j < i ==> (#[trigger] tail[j]).active_workspace != Some(id);
                assert forall|j: int| 0 <= j < i + 1 implies (#[trigger] ms[j]).active_workspace
                    != Some(id) by {
                    if j > 0 {
                        assert(tail[j - 1] == ms[j]);
                    }
                }
                assert(ms[i + 1] == m);
            } else {
                assert forall|i: int| 0 <= i < ms.len() implies (#[trigger] ms[i]).active_workspace
                    != Some(id) by {
                    if i > 0 {
                        assert(tail[i - 1] == ms[i]);
                    }
                }
            }
        }
    }
}

/// A window's offered box reads back as its position and size, each missing
/// number as zero.
pub proof fn law_window_box_reads_back(w: Window)
    ensures
        read_geometry(window_box(w)) == Ok::<_, GeometryError>(
            (
                match w.at_x {
                    Some(v) => v,
                    None => 0i64,
                },
                match w.at_y {
                    Some(v) => v,
                    None => 0i64,
                },
                match w.width {
                    Some(v) => v,
                    None => 0i64,
                },
                match w.height {
                    Some(v) => v,
                    None => 0i64,
                },
            ),
        ),
{
    let x = match w.at_x { Some(v) => v, None => 0i64 };
    let y = match w.at_y { Some(v) => v, None => 0i64 };
    let ww = match w.width { Some(v) => v, None => 0i64 };
    let h = match w.height { Some(v) => v, None => 0i64 };
    law_read_geometry_text(x, y, ww, h);
}

/// The focused window's geometry, where it has one, reads back as its
/// reported position and size; it has one exactly when all four are reported.
pub proof fn law_active_window_reads_back(w: Window)
    ensures
        active_window_geometry(w) is Ok <==> (w.at_x is Some && w.at_y is Some && w.width is Some
            && w.height is Some),
        active_window_geometry(w) matches Ok(g) ==> read_geometry(g) == Ok::<_, GeometryError>(
            (w.at_x->0, w.at_y->0, w.width->0, w.height->0),
        ),
{
    if w.at_x is Some && w.at_y is Some && w.width is Some && w.height is Some {
        law_read_geometry_text(w.at_x->0, w.at_y->0, w.width->0, w.height->0);
    }
}

/// A monitor's geometry, where it has one, reads back as its position
/// (missing coordinates as zero) and its logical size; it has one exactly
/// when the logical size is reported.
pub proof fn law_monitor_geometry_reads_back(m: Monitor)
    ensures
        monitor_geometry_text(m) is Ok <==> (m.logical_width is Some && m.logical_height is Some),
        monitor_geometry_text(m) matches Ok(g) ==> read_geometry(g) == Ok::<_, GeometryError>(
            (
                match m.x {
                    Some(v) => v,
                    None => 0i64,
                },
                match m.y {
                    Some(v) => v,
                    None => 0i64,
                },
                m.logical_width->0,
                m.logical_height->0,
            ),
        ),
{
    if m.logical_width is Some && m.logical_height is Some {
        let x = match m.x { Some(v) => v, None => 0i64 };
        let y = match m.y { Some(v) => v, None => 0i64 };
        law_read_geometry_text(x, y, m.logical_width->0, m.logical_height->0);
    }
}

} // verus!
