use vstd::prelude::*;
use crate::display::{DISPLAY_HEIGHT, DISPLAY_WIDTH};
use crate::time::Time;

verus! {

/// Gap around the glow of a lit square.
pub const PADDING: i32 = 2;

/// Width of the glow around a lit square.
pub const GLOW_SIZE: i32 = 5;

/// Distance from a cell's corner to its square: the glow and the gap.
pub const TOTAL_OFFSET: i32 = 7;

/// The offset taken on both sides.
pub const FULL_PADDING: i32 = 14;

/// Side of the square of one bit: a quarter of the height, less the padding.
pub const DOT_SIZE: i32 = 29;

/// Side of the glow of a lit square.
pub const GLOW_DIM: i32 = 39;

/// Side of the area a square is drawn in, padding included.
pub const ERASURE_DIM: i32 = 43;

/// Rounding of the squares' corners.
pub const CORNER_RADIUS: u32 = 8;

/// Extra gap between the hours, the minutes and the seconds.
pub const SECTION_PADDING: i32 = 12;

/// Distance from one column, or one row, to the next.
pub const COL_STRIDE: i32 = 43;

/// Left edge of the first column, which centres the six columns and their
/// section gaps.
pub const X_SHIFT: i32 = 19;

/// Width of the outline of an unlit square.
pub const OUTLINE_WIDTH: u32 = 2;

/// The layout measures follow from one another and from the screen.
pub proof fn law_layout_measures()
    ensures
        TOTAL_OFFSET == GLOW_SIZE + PADDING,
        FULL_PADDING == TOTAL_OFFSET * 2,
        DOT_SIZE == DISPLAY_HEIGHT / 4 - FULL_PADDING,
        GLOW_DIM == DOT_SIZE + GLOW_SIZE * 2,
        ERASURE_DIM == DOT_SIZE + FULL_PADDING,
        SECTION_PADDING == PADDING * 6,
        COL_STRIDE == DOT_SIZE + FULL_PADDING,
        X_SHIFT == (DISPLAY_WIDTH - 6 * COL_STRIDE) / 2 - SECTION_PADDING,
        // the six columns and two section gaps fit across, four rows down
        X_SHIFT + 5 * COL_STRIDE + 2 * SECTION_PADDING + ERASURE_DIM <= DISPLAY_WIDTH,
        3 * COL_STRIDE + ERASURE_DIM <= DISPLAY_HEIGHT,
{
}

/// One bit square of the binary face: its column (tens of hours, hours, tens
/// of minutes, minutes, tens of seconds, seconds), its row (weights 8, 4, 2,
/// 1 from the top), the top-left corner of its area, and whether it is lit.
#[derive(Copy, Clone, Debug, PartialEq, Eq, Structural)]
pub struct BcdCell {
    pub column: u8,
    pub row: u8,
    pub left: i32,
    pub top: i32,
    pub is_on: bool,
}

/// The decimal digit that column `col` shows.
pub open spec fn column_digit(t: Time, col: int) -> int {
    if col == 0 {
        t.hours as int / 10
    } else if col == 1 {
        t.hours as int % 10
    } else if col == 2 {
        t.minutes as int / 10
    } else if col == 3 {
        t.minutes as int % 10
    } else if col == 4 {
        t.seconds as int / 10
    } else {
        t.seconds as int % 10
    }
}

/// How many bits column `col` has: two for the tens of hours, three for the
/// tens of minutes and of seconds, four for the units.
pub open spec fn column_bits(col: int) -> int {
    if col == 0 {
        2
    } else if col % 2 == 0 {
        3
    } else {
        4
    }
}

/// The weight of the bit in row `row`.
pub open spec fn row_weight(row: int) -> int {
    if row == 0 {
        8
    } else if row == 1 {
        4
    } else if row == 2 {
        2
    } else {
        1
    }
}

/// The square of column `col`, row `row`.
pub open spec fn bcd_cell(t: Time, col: int, row: int) -> BcdCell {
    BcdCell {
        column: col as u8,
        row: row as u8,
        left: (X_SHIFT + col * COL_STRIDE + SECTION_PADDING * (col / 2)) as i32,
        top: (row * COL_STRIDE) as i32,
        is_on: (column_digit(t, col) / row_weight(row)) % 2 == 1,
    }
}

/// The squares of column `col`, top to bottom; the rows a column lacks are at
/// its top.
pub open spec fn column_cells(t: Time, col: int) -> Seq<BcdCell> {
    Seq::new(column_bits(col) as nat, |i: int| bcd_cell(t, col, 4 - column_bits(col) + i))
}

/// The squares of the columns before `col`, column by column.
pub open spec fn cells_before(t: Time, col: int) -> Seq<BcdCell>
    decreases col,
{
    if col <= 0 {
        Seq::empty()
    } else {
        cells_before(t, col - 1) + column_cells(t, col - 1)
    }
}

/// All the squares of the binary face, in drawing order.
pub open spec fn bcd_layout(t: Time) -> Seq<BcdCell> {
    cells_before(t, 6)
}

/// The sum of the weights of the lit squares of column `col` among `cells`:
/// the number the column shows.
pub open spec fn lit_weight(cells: Seq<BcdCell>, col: int) -> int
    decreases cells.len(),
{
    if cells.len() == 0 {
        0
    } else {
        lit_weight(cells.drop_last(), col) + if cells.last().column == col && cells.last().is_on {
            row_weight(cells.last().row as int)
        } else {
            0
        }
    }
}

proof fn lemma_lit_weight_concat(a: Seq<BcdCell>, b: Seq<BcdCell>, col: int)
    ensures
        lit_weight(a + b, col) == lit_weight(a, col) + lit_weight(b, col),
    decreases b.len(),
{
    if b.len() == 0 {
        assert(a + b =~= a);
    } else {
        assert((a + b).drop_last() =~= a + b.drop_last());
        assert((a + b).last() == b.last());
        lemma_lit_weight_concat(a, b.drop_last(), col);
    }
}

proof fn lemma_other_column_weight(cells: Seq<BcdCell>, col: int)
    requires
        forall|i: int| 0 <= i < cells.len() ==> (#[trigger] cells[i]).column != col,
    ensures
        lit_weight(cells, col) == 0,
    decreases cells.len(),
{
    if cells.len() > 0 {
        assert(cells.last() == cells[cells.len() - 1]);
        lemma_other_column_weight(cells.drop_last(), col);
    }
}

proof fn lemma_binary_digits(d: u8)
    by (bit_vector)
    requires
        d < 16,
    ensures
        d == 8 * ((d / 8) % 2) + 4 * ((d / 4) % 2) + 2 * ((d / 2) % 2) + d % 2,
{
}

/// The weights of the rows `from..to` whose bit is set in `d`, added up.
spec fn bits_sum(d: int, from: int, to: int) -> int
    decreases to - from,
{
    if to <= from {
        0
    } else {
        bits_sum(d, from, to - 1) + row_weight(to - 1) * ((d / row_weight(to - 1)) % 2)
    }
}

proof fn lemma_prefix_weight(t: Time, col: int, j: int)
    requires
        0 <= col < 6,
        0 <= j <= column_bits(col),
    ensures
        lit_weight(column_cells(t, col).take(j), col) == bits_sum(
            column_digit(t, col),
            4 - column_bits(col),
            4 - column_bits(col) + j,
        ),
    decreases j,
{
    let n = column_bits(col);
    let all = column_cells(t, col);
    let s = all.take(j);
    if j > 0 {
        assert(s.drop_last() =~= all.take(j - 1));
        lemma_prefix_weight(t, col, j - 1);
        let c = s.last();
        assert(c == bcd_cell(t, col, 4 - n + j - 1));
        let d = column_digit(t, col);
        let w = row_weight(4 - n + j - 1);
        assert((d / w) % 2 == 0 || (d / w) % 2 == 1);
        assert(lit_weight(s, col) == lit_weight(s.drop_last(), col) + (if c.is_on { w } else { 0 }));
    } else {
        assert(s.len() == 0);
    }
}

proof fn lemma_column_weight(t: Time, col: int)
    requires
        0 <= col < 6,
        0 <= column_digit(t, col) < if col == 0 { 4int } else if col % 2 == 0 { 8int } else { 16int },
    ensures
        lit_weight(column_cells(t, col), col) == column_digit(t, col),
{
    let d = column_digit(t, col);
    let n = column_bits(col);
    lemma_prefix_weight(t, col, n);
    assert(column_cells(t, col).take(n) =~= column_cells(t, col));
    lemma_binary_digits(d as u8);
    assert(bits_sum(d, 0, 0) == 0);
    assert(bits_sum(d, 1, 1) == 0);
    assert(bits_sum(d, 2, 2) == 0);
    assert(bits_sum(d, 0, 1) == 8 * ((d / 8) % 2));
    assert(bits_sum(d, 0, 2) == 8 * ((d / 8) % 2) + 4 * ((d / 4) % 2));
    assert(bits_sum(d, 1, 2) == 4 * ((d / 4) % 2));
    assert(bits_sum(d, 0, 3) == 8 * ((d / 8) % 2) + 4 * ((d / 4) % 2) + 2 * ((d / 2) % 2));
    assert(bits_sum(d, 1, 3) == 4 * ((d / 4) % 2) + 2 * ((d / 2) % 2));
    assert(bits_sum(d, 2, 3) == 2 * ((d / 2) % 2));
    assert(bits_sum(d, 0, 4) == d);
    assert(bits_sum(d, 1, 4) == 4 * ((d / 4) % 2) + 2 * ((d / 2) % 2) + d % 2);
    assert(bits_sum(d, 2, 4) == 2 * ((d / 2) % 2) + d % 2);
}

proof fn lemma_cells_before_weight(t: Time, k: int, col: int)
    requires
        0 <= k <= 6,
        0 <= col < 6,
        0 <= column_digit(t, col) < if col == 0 { 4int } else if col % 2 == 0 { 8int } else { 16int },
    ensures
        lit_weight(cells_before(t, k), col) == if col < k { column_digit(t, col) } else { 0 },
    decreases k,
{
    if k > 0 {
        lemma_cells_before_weight(t, k - 1, col);
        lemma_lit_weight_concat(cells_before(t, k - 1), column_cells(t, k - 1), col);
        if k - 1 == col {
            lemma_column_weight(t, col);
        } else {
            lemma_other_column_weight(column_cells(t, k - 1), col);
        }
    } else {
        assert(cells_before(t, 0).len() == 0);
    }
}

/// Each column of the binary face shows its decimal digit of a valid time:
/// the weights of its lit squares add up to the tens of hours, the hours,
/// the tens of minutes, the minutes, the tens of seconds and the seconds.
pub proof fn law_columns_show_digits(t: Time)
    requires
        t.is_normalized(),
    ensures
        lit_weight(bcd_layout(t), 0) == t.hours / 10,
        lit_weight(bcd_layout(t), 1) == t.hours % 10,
        lit_weight(bcd_layout(t), 2) == t.minutes / 10,
        lit_weight(bcd_layout(t), 3) == t.minutes % 10,
        lit_weight(bcd_layout(t), 4) == t.seconds / 10,
        lit_weight(bcd_layout(t), 5) == t.seconds % 10,
        bcd_layout(t).len() == 20,
{
    lemma_cells_before_weight(t, 6, 0);
    lemma_cells_before_weight(t, 6, 1);
    lemma_cells_before_weight(t, 6, 2);
    lemma_cells_before_weight(t, 6, 3);
    lemma_cells_before_weight(t, 6, 4);
    lemma_cells_before_weight(t, 6, 5);
    assert(cells_before(t, 0).len() == 0);
    assert(cells_before(t, 1).len() == 2);
    assert(cells_before(t, 2).len() == 6);
    assert(cells_before(t, 3).len() == 9);
    assert(cells_before(t, 4).len() == 13);
    assert(cells_before(t, 5).len() == 16);
}

proof fn lemma_bit_test(v: u8, w: u8)
    by (bit_vector)
    requires
        w == 1 || w == 2 || w == 4 || w == 8,
    ensures
        ((v & w) != 0) == ((v / w) % 2 == 1),
{
}

fn weight_of_row(row: u8) -> (w: u8)
    requires
        row < 4,
    ensures
        w == row_weight(row as int),
{
    let w: u8 = 1u8 << (3 - row);
    assert(row < 4 ==> (1u8 << ((3u8 - row) as u8)) == (if row == 0 {
        8u8
    } else if row == 1 {
        4u8
    } else if row == 2 {
        2u8
    } else {
        1u8
    })) by (bit_vector);
    w
}

/// Lays out the binary face for `time`: the squares of the six digit columns,
/// column by column and top to bottom, each with where it goes and whether it
/// is lit.
pub fn bcd_cells(time: &Time) -> (cells: Vec<BcdCell>)
    ensures
        cells@ == bcd_layout(*time),
{
    let values: [u8; 6] = [
        time.hours / 10,
        time.hours % 10,
        time.minutes / 10,
        time.minutes % 10,
        time.seconds / 10,
        time.seconds % 10,
    ];
    let max_bits: [u8; 6] = [2, 4, 3, 4, 3, 4];
    let mut cells: Vec<BcdCell> = Vec::new();
    let mut shift: i32 = 0;
    let mut col: usize = 0;
    while col < 6
        invariant
            col <= 6,
            cells@ == cells_before(*time, col as int),
            shift == (if col == 0 { 0 } else { SECTION_PADDING * ((col - 1) / 2) }),
            forall|c: int| 0 <= c < 6 ==> values[c] == column_digit(*time, c),
            forall|c: int| 0 <= c < 6 ==> max_bits[c] == column_bits(c),
        decreases 6 - col,
    {
        if col != 0 && col % 2 == 0 {
            shift = shift + SECTION_PADDING;
        }
        let val = values[col];
        let bits = max_bits[col];
        let ghost first = 4 - column_bits(col as int);
        let ghost base = cells@;
        let mut row: u8 = 0;
        while row < 4
            invariant
                col < 6,
                row <= 4,
                first == 4 - column_bits(col as int),
                bits == column_bits(col as int),
                val == column_digit(*time, col as int),
                shift == SECTION_PADDING * (col / 2),
                base == cells_before(*time, col as int),
                cells@ == base + column_cells(*time, col as int).take(
                    if row <= first { 0 } else { row - first },
                ),
            decreases 4 - row,
        {
            let bit_val = weight_of_row(row);
            let bit_exists = match bits {
                2 => bit_val <= 2,
                3 => bit_val <= 4,
                _ => true,
            };
            if bit_exists {
                proof {
                    lemma_bit_test(val, bit_val);
                }
                let is_on = (val & bit_val) != 0;
                let left = X_SHIFT + (col as i32) * COL_STRIDE + shift;
                let top = (row as i32) * COL_STRIDE;
                let cell = BcdCell { column: col as u8, row, left, top, is_on };
                assert(cell == bcd_cell(*time, col as int, row as int));
                cells.push(cell);
                assert(cells@ =~= base + column_cells(*time, col as int).take(row + 1 - first));
            }
            row = row + 1;
        }
        assert(column_cells(*time, col as int).take(4 - first) =~= column_cells(*time, col as int));
        col = col + 1;
    }
    cells
}

/// How one of the shapes that make up a bit square is painted.
#[derive(Copy, Clone, Debug, PartialEq, Eq, Structural)]
pub enum SquarePaint {
    /// Filled with the column's glow colour.
    Glow,
    /// Filled with the column's core colour.
    Core,
    /// Filled with the background, erasing what was there.
    Background,
    /// Outlined inside with the inactive colour.
    InactiveOutline,
}

/// A square (rounded when `corner_radius` is not zero) to draw.
#[derive(Copy, Clone, Debug, PartialEq, Eq, Structural)]
pub struct SquareShape {
    pub left: i32,
    pub top: i32,
    pub size: u32,
    pub corner_radius: u32,
    pub paint: SquarePaint,
}

/// The shapes, in drawing order, of the bit square whose area has its corner
/// at `(left, top)`: a lit square is a rounded glow with a square core on
/// it; an unlit one erases its area and outlines a rounded core.
pub open spec fn glowing_square(left: int, top: int, is_on: bool) -> Seq<SquareShape> {
    if is_on {
        seq![
            SquareShape {
                left: (left + PADDING) as i32,
                top: (top + PADDING) as i32,
                size: GLOW_DIM as u32,
                corner_radius: CORNER_RADIUS,
                paint: SquarePaint::Glow,
            },
            SquareShape {
                left: (left + TOTAL_OFFSET) as i32,
                top: (top + TOTAL_OFFSET) as i32,
                size: DOT_SIZE as u32,
                corner_radius: 0,
                paint: SquarePaint::Core,
            },
        ]
    } else {
        seq![
            SquareShape {
                left: left as i32,
                top: top as i32,
                size: ERASURE_DIM as u32,
                corner_radius: CORNER_RADIUS,
                paint: SquarePaint::Background,
            },
            SquareShape {
                left: (left + TOTAL_OFFSET) as i32,
                top: (top + TOTAL_OFFSET) as i32,
                size: DOT_SIZE as u32,
                corner_radius: CORNER_RADIUS,
                paint: SquarePaint::InactiveOutline,
            },
        ]
    }
}

/// Every shape of a bit square lies within its area, and the core is centred
/// in it; a lit square's glow surrounds its core by the glow's width, and an
/// unlit square first erases its whole area.
pub proof fn law_square_shapes_in_area(left: int, top: int, is_on: bool)
    requires
        left + ERASURE_DIM <= i32::MAX,
        top + ERASURE_DIM <= i32::MAX,
        i32::MIN <= left,
        i32::MIN <= top,
    ensures
        glowing_square(left, top, is_on).len() == 2,
        forall|k: int|
            0 <= k < 2 ==> {
                let s = #[trigger] glowing_square(left, top, is_on)[k];
                &&& left <= s.left
                &&& s.left + s.size <= left + ERASURE_DIM
                &&& top <= s.top
                &&& s.top + s.size <= top + ERASURE_DIM
            },
        ({
            let core = glowing_square(left, top, is_on)[1];
            &&& core.left - left == left + ERASURE_DIM - (core.left + core.size)
            &&& core.top - top == top + ERASURE_DIM - (core.top + core.size)
            &&& core.size == DOT_SIZE
        }),
        is_on ==> {
            let glow = glowing_square(left, top, is_on)[0];
            let core = glowing_square(left, top, is_on)[1];
            &&& core.left - glow.left == GLOW_SIZE
            &&& glow.left + glow.size - (core.left + core.size) == GLOW_SIZE
            &&& core.top - glow.top == GLOW_SIZE
            &&& glow.paint == SquarePaint::Glow
            &&& core.paint == SquarePaint::Core
        },
        !is_on ==> {
            let erase = glowing_square(left, top, is_on)[0];
            &&& erase.left == left && erase.top == top && erase.size == ERASURE_DIM
            &&& erase.paint == SquarePaint::Background
            &&& glowing_square(left, top, is_on)[1].paint == SquarePaint::InactiveOutline
        },
{
}

/// The shapes that draw one bit square.
pub fn glowing_square_shapes(left: i32, top: i32, is_on: bool) -> (shapes: Vec<SquareShape>)
    requires
        left + TOTAL_OFFSET <= i32::MAX,
        top + TOTAL_OFFSET <= i32::MAX,
    ensures
        shapes@ == glowing_square(left as int, top as int, is_on),
{
    let core_left = left + TOTAL_OFFSET;
    let core_top = top + TOTAL_OFFSET;
    let mut shapes: Vec<SquareShape> = Vec::new();
    if is_on {
        shapes.push(
            SquareShape {
                left: left + PADDING,
                top: top + PADDING,
                size: GLOW_DIM as u32,
                corner_radius: CORNER_RADIUS,
                paint: SquarePaint::Glow,
            },
        );
        shapes.push(
            SquareShape {
                left: core_left,
                top: core_top,
                size: DOT_SIZE as u32,
                corner_radius: 0,
                paint: SquarePaint::Core,
            },
        );
    } else {
        shapes.push(
            SquareShape {
                left,
                top,
                size: ERASURE_DIM as u32,
                corner_radius: CORNER_RADIUS,
                paint: SquarePaint::Background,
            },
        );
        shapes.push(
            SquareShape {
                left: core_left,
                top: core_top,
                size: DOT_SIZE as u32,
                corner_radius: CORNER_RADIUS,
                paint: SquarePaint::InactiveOutline,
            },
        );
    }
    assert(shapes@ =~= glowing_square(left as int, top as int, is_on));
    shapes
}

} // verus!
