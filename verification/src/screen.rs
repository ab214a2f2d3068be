//! Display geometry: window bounds, display bounds, and the choice of which
//! display to capture when several are present.

use vstd::prelude::*;
use vstd::string::{StrSliceExecFns, StringSliceAdditionalSpecFns};

verus! {

/// A window's position and size on the virtual desktop.
#[derive(Clone, Copy, Debug, PartialEq, Eq, Structural)]
pub struct WindowBounds {
    pub x: i32,
    pub y: i32,
    pub width: i32,
    pub height: i32,
}

/// One display's position and size, as the capture collaborator reports it.
#[derive(Clone, Copy, Debug, PartialEq, Eq, Structural)]
pub struct DisplayBounds {
    pub x: i32,
    pub y: i32,
    pub width: u32,
    pub height: u32,
}

/// The window's center point, the position tested against each display.
pub open spec fn spec_center_x(w: WindowBounds) -> int {
    w.x + w.width / 2
}

pub open spec fn spec_center_y(w: WindowBounds) -> int {
    w.y + w.height / 2
}

/// Whether a point lies on a display.
pub open spec fn spec_display_contains(d: DisplayBounds, px: int, py: int) -> bool {
    &&& d.x <= px < d.x + d.width
    &&& d.y <= py < d.y + d.height
}

/// The first display that contains the window's center, scanned in order.
pub fn find_screen_containing_window(displays: &Vec<DisplayBounds>, window: &WindowBounds) -> (r:
    Option<usize>)
    requires
        window.width >= 0,
        window.height >= 0,
    ensures
        match r {
            Some(i) => {
                &&& 0 <= i < displays@.len()
                &&& spec_display_contains(
                    displays@[i as int],
                    spec_center_x(*window),
                    spec_center_y(*window),
                )
                &&& forall|j: int|
                    0 <= j < i ==> !spec_display_contains(
                        #[trigger] displays@[j],
                        spec_center_x(*window),
                        spec_center_y(*window),
                    )
            },
            None => forall|j: int|
                0 <= j < displays@.len() ==> !spec_display_contains(
                    #[trigger] displays@[j],
                    spec_center_x(*window),
                    spec_center_y(*window),
                ),
        },
{
    let cx: i64 = window.x as i64 + (window.width as i64) / 2;
    let cy: i64 = window.y as i64 + (window.height as i64) / 2;
    assert(cx == spec_center_x(*window) && cy == spec_center_y(*window)) by {
        vstd::arithmetic::div_mod::lemma_div_by_multiple(0, 2);
    }
    let n = displays.len();
    let mut i: usize = 0;
    while i < n
        invariant
            0 <= i <= n == displays@.len(),
            cx == spec_center_x(*window),
            cy == spec_center_y(*window),
            forall|j: int|
                0 <= j < i ==> !spec_display_contains(
                    #[trigger] displays@[j],
                    spec_center_x(*window),
                    spec_center_y(*window),
                ),
        decreases n - i,
    {
        let d = displays[i];
        if d.x as i64 <= cx && cx < d.x as i64 + d.width as i64 && d.y as i64 <= cy && cy < d.y
            as i64 + d.height as i64 {
            return Some(i);
        }
        i = i + 1;
    }
    None
}

/// Picks the display a capture cycle should shoot: the only one when there
/// is only one, else the first display containing the active window's
/// center, else the primary (first) display.
pub fn select_best_screen(displays: &Vec<DisplayBounds>, active_window: Option<&WindowBounds>) -> (
    r: usize)
    requires
        displays@.len() >= 1,
        match active_window {
            Some(w) => w.width >= 0 && w.height >= 0,
            None => true,
        },
    ensures
        0 <= r < displays@.len(),
        ({
            if displays@.len() == 1 {
                r == 0
            } else {
                match active_window {
                    Some(w) => {
                        if exists|j: int|
                            0 <= j < displays@.len() && spec_display_contains(
                                #[trigger] displays@[j],
                                spec_center_x(*w),
                                spec_center_y(*w),
                            ) {
                            &&& spec_display_contains(
                                displays@[r as int],
                                spec_center_x(*w),
                                spec_center_y(*w),
                            )
                            &&& forall|j: int|
                                0 <= j < r ==> !spec_display_contains(
                                    #[trigger] displays@[j],
                                    spec_center_x(*w),
                                    spec_center_y(*w),
                                )
                        } else {
                            r == 0
                        }
                    },
                    None => r == 0,
                }
            }
        }),
{
    if displays.len() == 1 {
        return 0;
    }
    match active_window {
        Some(w) => {
            match find_screen_containing_window(displays, w) {
                Some(i) => i,
                None => 0,
            }
        },
        None => 0,
    }
}

pub open spec fn is_blank(b: u8) -> bool {
    b == 32 || b == 9
}

/// The first position at or after `pos` that is not a space or tab.
pub open spec fn blank_run_end(s: Seq<u8>, pos: int) -> int
    decreases s.len() - pos,
{
    if pos < 0 || pos >= s.len() || !is_blank(s[pos]) {
        pos
    } else {
        blank_run_end(s, pos + 1)
    }
}

/// The first comma at or after `pos`, or the length when there is none.
pub open spec fn comma_pos(s: Seq<u8>, pos: int) -> int
    decreases s.len() - pos,
{
    if pos < 0 || pos >= s.len() || s[pos] == 44 {
        pos
    } else {
        comma_pos(s, pos + 1)
    }
}

/// A whole token as one `i32`: optional blanks, an optional sign, a digit
/// run whose value fits, optional blanks to the end.
pub open spec fn spec_parse_i32_token(s: Seq<u8>) -> Option<i32> {
    let a = blank_run_end(s, 0);
    let neg = a < s.len() && s[a] == 45;
    let signed = a < s.len() && (s[a] == 45 || s[a] == 43);
    let d = if signed {
        a + 1
    } else {
        a
    };
    let e = crate::num::digit_run_end(s, d);
    if e > d && blank_run_end(s, e) == s.len() {
        let v = crate::num::dec_value(s.subrange(d, e));
        if neg {
            if v <= 0x8000_0000 {
                Some((-v) as i32)
            } else {
                None
            }
        } else {
            if v <= 0x7fff_ffff {
                Some(v as i32)
            } else {
                None
            }
        }
    } else {
        None
    }
}

/// A pair such as `12, 34`: the first two comma-separated fields as `i32`
/// tokens; anything after a second comma is ignored.
pub open spec fn spec_parse_coords(s: Seq<u8>) -> Option<(i32, i32)> {
    let c = comma_pos(s, 0);
    if c < s.len() {
        let c2 = comma_pos(s, c + 1);
        match (spec_parse_i32_token(s.subrange(0, c)), spec_parse_i32_token(
            s.subrange(c + 1, c2),
        )) {
            (Some(x), Some(y)) => Some((x, y)),
            _ => None,
        }
    } else {
        None
    }
}

/// What the two coordinate strings a window query reports denote.
pub open spec fn spec_parse_window_bounds(pos: Seq<u8>, size: Seq<u8>) -> Option<WindowBounds> {
    match (spec_parse_coords(pos), spec_parse_coords(size)) {
        (Some((x, y)), Some((w, h))) => Some(WindowBounds { x, y, width: w, height: h }),
        _ => None,
    }
}

fn skip_blanks(buf: &Vec<u8>, pos: usize) -> (r: usize)
    requires
        pos <= buf@.len(),
    ensures
        r == blank_run_end(buf@, pos as int),
        pos <= r <= buf@.len(),
{
    let n = buf.len();
    let mut i: usize = pos;
    while i < n && (buf[i] == 32 || buf[i] == 9)
        invariant
            pos <= i <= n == buf@.len(),
            blank_run_end(buf@, pos as int) == blank_run_end(buf@, i as int),
        decreases n - i,
    {
        i = i + 1;
    }
    i
}

fn find_comma(buf: &Vec<u8>, pos: usize) -> (r: usize)
    requires
        pos <= buf@.len(),
    ensures
        r == comma_pos(buf@, pos as int),
        pos <= r <= buf@.len(),
{
    let n = buf.len();
    let mut i: usize = pos;
    while i < n && buf[i] != 44
        invariant
            pos <= i <= n == buf@.len(),
            comma_pos(buf@, pos as int) == comma_pos(buf@, i as int),
        decreases n - i,
    {
        i = i + 1;
    }
    i
}

fn parse_i32_token(buf: &Vec<u8>) -> (r: Option<i32>)
    ensures
        r == spec_parse_i32_token(buf@),
{
    let n = buf.len();
    let a = skip_blanks(buf, 0);
    let neg = a < n && buf[a] == 45;
    let signed = a < n && (buf[a] == 45 || buf[a] == 43);
    let d = if signed {
        a + 1
    } else {
        a
    };
    if d > n {
        return None;
    }
    match crate::num::parse_dec_u64(buf, d) {
        None => None,
        Some((v, e)) => {
            if skip_blanks(buf, e) != n {
                None
            } else if neg {
                if v <= 0x8000_0000 {
                    Some((-(v as i64)) as i32)
                } else {
                    None
                }
            } else {
                if v <= 0x7fff_ffff {
                    Some(v as i32)
                } else {
                    None
                }
            }
        },
    }
}

fn parse_coords(buf: &Vec<u8>) -> (r: Option<(i32, i32)>)
    ensures
        r == spec_parse_coords(buf@),
{
    let n = buf.len();
    let c = find_comma(buf, 0);
    if !(c < n) {
        return None;
    }
    let c2 = find_comma(buf, c + 1);
    let left = crate::codec::copy_range(buf, 0, c);
    let right = crate::codec::copy_range(buf, c + 1, c2 - (c + 1));
    assert(right@ == buf@.subrange(c + 1, c2 as int));
    match (parse_i32_token(&left), parse_i32_token(&right)) {
        (Some(x), Some(y)) => Some((x, y)),
        _ => None,
    }
}

/// As `parse_window_bounds`, over the raw field bytes.
pub fn parse_window_bounds_bytes(pos_bytes: &Vec<u8>, size_bytes: &Vec<u8>) -> (r: Option<
    WindowBounds,
>)
    ensures
        r == spec_parse_window_bounds(pos_bytes@, size_bytes@),
{
    match (parse_coords(pos_bytes), parse_coords(size_bytes)) {
        (Some((x, y)), Some((w, h))) => Some(WindowBounds { x, y, width: w, height: h }),
        _ => None,
    }
}

/// Parses the position and size strings a window query reports, such as
/// `"12, 34"` and `"800, 600"`, into window bounds.
pub fn parse_window_bounds(position_str: &str, size_str: &str) -> (r: Option<WindowBounds>)
    ensures
        r == spec_parse_window_bounds(position_str.spec_bytes(), size_str.spec_bytes()),
{
    let pos_bytes = position_str.as_bytes_vec();
    let size_bytes = size_str.as_bytes_vec();
    parse_window_bounds_bytes(&pos_bytes, &size_bytes)
}


} // verus!
