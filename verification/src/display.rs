use vstd::prelude::*;

verus! {

/// Width of the screen as the clock faces use it, lying on its side.
pub const DISPLAY_WIDTH: i32 = 320;

/// Height of the screen as the clock faces use it.
pub const DISPLAY_HEIGHT: i32 = 172;

/// First panel column that the glass shows.
pub const PANEL_OFFSET_X: i32 = 34;

/// Columns of the panel, which is mounted upright.
pub const PANEL_WIDTH: i32 = 240;

/// Rows of the panel.
pub const PANEL_HEIGHT: i32 = 320;

/// The panel pixel that shows the landscape pixel `(x, y)`: the picture is
/// turned a quarter turn, and shifted to the part of the panel under the
/// glass.
pub open spec fn panel_point(x: int, y: int) -> (int, int) {
    ((DISPLAY_HEIGHT - 1 - y) + PANEL_OFFSET_X, x)
}

/// Maps a pixel of the landscape picture onto the upright panel.
pub fn landscape_to_panel(x: i32, y: i32) -> (p: (i32, i32))
    requires
        y >= DISPLAY_HEIGHT - 1 + PANEL_OFFSET_X - i32::MAX,
    ensures
        (p.0 as int, p.1 as int) == panel_point(x as int, y as int),
{
    let st_x = (DISPLAY_HEIGHT - 1 - y) + PANEL_OFFSET_X;
    let st_y = x;
    (st_x, st_y)
}

/// The size of the landscape picture, width then height.
pub fn landscape_size() -> (s: (u32, u32))
    ensures
        s == (DISPLAY_WIDTH as u32, DISPLAY_HEIGHT as u32),
{
    (320, 172)
}

/// Distinct pixels of the picture land on distinct pixels of the panel, and
/// every pixel of the picture lands on the panel.
pub proof fn law_landscape_fits_panel(x1: int, y1: int, x2: int, y2: int)
    ensures
        panel_point(x1, y1) == panel_point(x2, y2) ==> x1 == x2 && y1 == y2,
        0 <= x1 < DISPLAY_WIDTH && 0 <= y1 < DISPLAY_HEIGHT ==> {
            let p = panel_point(x1, y1);
            &&& 0 <= p.0 < PANEL_WIDTH
            &&& 0 <= p.1 < PANEL_HEIGHT
        },
{
}

/// The picture is turned a quarter turn: a step right in the picture is a
/// step down the panel, a step down the picture a step left on the panel;
/// the picture's top row lands on the panel's column 205 and its bottom row
/// on the first column under the glass.
pub proof fn law_landscape_turns_quarter(x: int, y: int)
    ensures
        panel_point(x + 1, y) == (panel_point(x, y).0, panel_point(x, y).1 + 1),
        panel_point(x, y + 1) == (panel_point(x, y).0 - 1, panel_point(x, y).1),
        panel_point(x, DISPLAY_HEIGHT - 1).0 == PANEL_OFFSET_X,
        panel_point(x, 0).0 == PANEL_OFFSET_X + DISPLAY_HEIGHT - 1,
        panel_point(x, y).1 == x,
{
}

} // verus!
