//! Rectangles, the cells that carry a fill, and the three ways to cut one.

use crate::color::Color;
use vstd::prelude::*;

verus! {

/// An axis-aligned rectangle in canvas coordinates: the points `(px, py)` with
/// `x <= px < x + width` and `y <= py < y + height`.
pub struct Rect {
    pub x: int,
    pub y: int,
    pub width: int,
    pub height: int,
}

impl Rect {
    /// A rectangle of the canvas has a corner at non-negative coordinates and
    /// holds at least one point.
    pub open spec fn wf(self) -> bool {
        &&& 0 <= self.x
        &&& 0 <= self.y
        &&& 0 < self.width
        &&& 0 < self.height
    }

    /// The first coordinate to the right of the rectangle.
    pub open spec fn right(self) -> int {
        self.x + self.width
    }

    /// The first coordinate below the rectangle.
    pub open spec fn bottom(self) -> int {
        self.y + self.height
    }

    /// The number of points of the rectangle.
    pub open spec fn area(self) -> int {
        self.width * self.height
    }

    /// The point `(px, py)` lies in the rectangle.
    pub open spec fn contains(self, px: int, py: int) -> bool {
        &&& self.x <= px < self.right()
        &&& self.y <= py < self.bottom()
    }

    /// Every point of `self` is a point of `outer`, and so are its edges.
    pub open spec fn within(self, outer: Rect) -> bool {
        &&& outer.x <= self.x
        &&& self.right() <= outer.right()
        &&& outer.y <= self.y
        &&& self.bottom() <= outer.bottom()
    }

    /// The two rectangles share area: their intersection is not empty.
    pub open spec fn overlaps(self, other: Rect) -> bool {
        &&& self.x < other.right()
        &&& other.x < self.right()
        &&& self.x < self.right()
        &&& other.x < other.right()
        &&& self.y < other.bottom()
        &&& other.y < self.bottom()
        &&& self.y < self.bottom()
        &&& other.y < other.bottom()
    }

    /// The part above the line `split_y` and the part from it downwards, where
    /// the line lies between the top and the bottom edge, both included.
    pub open spec fn split_horizontally(self, split_y: int) -> Option<(Rect, Rect)> {
        if self.y <= split_y <= self.bottom() {
            Some(
                (
                    Rect { x: self.x, y: self.y, width: self.width, height: split_y - self.y },
                    Rect {
                        x: self.x,
                        y: split_y,
                        width: self.width,
                        height: self.bottom() - split_y,
                    },
                ),
            )
        } else {
            None
        }
    }

    /// The part left of the line `split_x` and the part from it rightwards,
    /// where the line lies between the left and the right edge, both included.
    pub open spec fn split_vertically(self, split_x: int) -> Option<(Rect, Rect)> {
        if self.x <= split_x <= self.right() {
            Some(
                (
                    Rect { x: self.x, y: self.y, width: split_x - self.x, height: self.height },
                    Rect {
                        x: split_x,
                        y: self.y,
                        width: self.right() - split_x,
                        height: self.height,
                    },
                ),
            )
        } else {
            None
        }
    }

    /// The four quadrants around `(split_x, split_y)`: the top row, left
    /// before right, then the bottom row. The rectangle is cut horizontally
    /// first, and both halves are then cut vertically.
    pub open spec fn split_four_ways(self, split_x: int, split_y: int) -> Option<
        ((Rect, Rect), (Rect, Rect)),
    > {
        match self.split_horizontally(split_y) {
            Some((top, bottom)) => match (
                top.split_vertically(split_x),
                bottom.split_vertically(split_x),
            ) {
                (Some(upper), Some(lower)) => Some((upper, lower)),
                _ => None,
            },
            None => None,
        }
    }
}

/// The sum of the areas of some rectangles.
pub open spec fn total_area(parts: Seq<Rect>) -> int
    decreases parts.len(),
{
    if parts.len() == 0 {
        0
    } else {
        total_area(parts.drop_last()) + parts.last().area()
    }
}

/// `parts` tile `whole`: each lies inside it, no two share area, every point
/// of `whole` lies in one of them, and their areas add up to its area.
pub open spec fn tiles(whole: Rect, parts: Seq<Rect>) -> bool {
    &&& forall|i: int| 0 <= i < parts.len() ==> (#[trigger] parts[i]).within(whole)
    &&& forall|i: int, j: int|
        0 <= i < parts.len() && 0 <= j < parts.len() && i != j ==> !(#[trigger] parts[i]).overlaps(
            #[trigger] parts[j],
        )
    &&& forall|px: int, py: int| #[trigger]
        whole.contains(px, py) ==> exists|i: int|
            0 <= i < parts.len() && (#[trigger] parts[i]).contains(px, py)
    &&& total_area(parts) == whole.area()
}

/// What a cell is: where it lies and how it is filled.
pub struct CellView {
    pub rect: Rect,
    pub fill: (u8, u8, u8),
}

/// The fill of a cell that was given none.
pub open spec fn white() -> (u8, u8, u8) {
    (255u8, 255u8, 255u8)
}

/// A rectangle of the canvas with a fill colour.
#[derive(Clone, Copy, Debug, PartialEq, Eq, Structural)]
pub struct Cell {
    pub x: u32,
    pub y: u32,
    pub width: u32,
    pub height: u32,
    pub fill: Color,
}

impl View for Cell {
    type V = CellView;

    open spec fn view(&self) -> CellView {
        CellView { rect: self.rect(), fill: self.fill@ }
    }
}

impl Cell {
    /// The rectangle that the cell covers.
    pub open spec fn rect(&self) -> Rect {
        Rect {
            x: self.x as int,
            y: self.y as int,
            width: self.width as int,
            height: self.height as int,
        }
    }

    /// A white cell.
    pub fn new(x: u32, y: u32, width: u32, height: u32) -> (cell: Self)
        ensures
            cell.x == x,
            cell.y == y,
            cell.width == width,
            cell.height == height,
            cell@.fill == white(),
    {
        Cell::new_with_fill(x, y, width, height, (255, 255, 255))
    }

    /// A cell with the given fill.
    pub fn new_with_fill(x: u32, y: u32, width: u32, height: u32, rgb: (u8, u8, u8)) -> (cell:
        Self)
        ensures
            cell.x == x,
            cell.y == y,
            cell.width == width,
            cell.height == height,
            cell@.fill == rgb,
    {
        Self { x, y, width, height, fill: Color::new(rgb.0, rgb.1, rgb.2) }
    }

    /// The fill of the cell.
    pub fn get_fill(&self) -> (rgb: (u8, u8, u8))
        ensures
            rgb == self@.fill,
    {
        self.fill.get_rgb()
    }

    /// Changes the fill and nothing else.
    pub fn set_fill(&mut self, rgb: (u8, u8, u8))
        ensures
            final(self)@ == (CellView { rect: old(self)@.rect, fill: rgb }),
    {
        self.fill.set_rgb(rgb);
    }

    /// Cuts the cell along the horizontal line `split_y` into a top and a
    /// bottom cell, both white. `None` where the line lies above the top edge
    /// or below the bottom edge.
    pub fn split_horizontally(&self, split_y: u32) -> (parts: Option<(Cell, Cell)>)
        ensures
            match (parts, self@.rect.split_horizontally(split_y as int)) {
                (Some((top, bottom)), Some((upper, lower))) => {
                    &&& top@ == (CellView { rect: upper, fill: white() })
                    &&& bottom@ == (CellView { rect: lower, fill: white() })
                    &&& tiles(self@.rect, seq![upper, lower])
                },
                (None, None) => true,
                _ => false,
            },
    {
        if split_y < self.y || split_y - self.y > self.height {
            return None;
        }
        let top = Cell::new(self.x, self.y, self.width, split_y - self.y);
        let bottom = Cell::new(self.x, split_y, self.width, self.height - top.height);
        proof {
            lemma_split_horizontally_tiles(self@.rect, split_y as int);
        }
        Some((top, bottom))
    }

    /// Cuts the cell along the vertical line `split_x` into a left and a right
    /// cell, both white. `None` where the line lies left of the left edge or
    /// right of the right edge.
    pub fn split_vertically(&self, split_x: u32) -> (parts: Option<(Cell, Cell)>)
        ensures
            match (parts, self@.rect.split_vertically(split_x as int)) {
                (Some((left, right)), Some((near, far))) => {
                    &&& left@ == (CellView { rect: near, fill: white() })
                    &&& right@ == (CellView { rect: far, fill: white() })
                    &&& tiles(self@.rect, seq![near, far])
                },
                (None, None) => true,
                _ => false,
            },
    {
        if split_x < self.x || split_x - self.x > self.width {
            return None;
        }
        let left = Cell::new(self.x, self.y, split_x - self.x, self.height);
        let right = Cell::new(split_x, self.y, self.width - left.width, self.height);
        proof {
            lemma_split_vertically_tiles(self@.rect, split_x as int);
        }
        Some((left, right))
    }

    /// Cuts the cell into four white quadrants around `(split_x, split_y)`:
    /// horizontally first, then each half vertically. `None` where either
    /// line lies outside the cell.
    pub fn split_four_ways(&self, split_x: u32, split_y: u32) -> (parts: Option<
        ((Cell, Cell), (Cell, Cell)),
    >)
        ensures
            match (parts, self@.rect.split_four_ways(split_x as int, split_y as int)) {
                (Some(((tl, tr), (bl, br))), Some(((r_tl, r_tr), (r_bl, r_br)))) => {
                    &&& tl@ == (CellView { rect: r_tl, fill: white() })
                    &&& tr@ == (CellView { rect: r_tr, fill: white() })
                    &&& bl@ == (CellView { rect: r_bl, fill: white() })
                    &&& br@ == (CellView { rect: r_br, fill: white() })
                    &&& tiles(self@.rect, seq![r_tl, r_tr, r_bl, r_br])
                },
                (None, None) => true,
                _ => false,
            },
    {
        if let Some((top, bottom)) = self.split_horizontally(split_y) {
            if let Some((tl, tr)) = top.split_vertically(split_x) {
                if let Some((bl, br)) = bottom.split_vertically(split_x) {
                    proof {
                        lemma_split_four_ways_tiles(self@.rect, split_x as int, split_y as int);
                    }
                    return Some(((tl, tr), (bl, br)));
                }
            }
        }
        None
    }
}

/// The area of a rectangle is shared out between the two parts of a cut.
proof fn lemma_area_splits(width: int, first: int, second: int)
    ensures
        width * (first + second) == width * first + width * second,
        (first + second) * width == first * width + second * width,
{
    assert((first + second) * width == first * width + second * width) by (nonlinear_arith);
}

/// The areas of two rectangles add up.
pub proof fn lemma_total_area_pair(a: Rect, b: Rect)
    ensures
        total_area(seq![a, b]) == a.area() + b.area(),
{
    reveal_with_fuel(total_area, 3);
}

/// The total area of two runs of rectangles, one after the other, is the sum
/// of their total areas.
pub proof fn lemma_total_area_concat(first: Seq<Rect>, second: Seq<Rect>)
    ensures
        total_area(first + second) == total_area(first) + total_area(second),
    decreases second.len(),
{
    if second.len() > 0 {
        assert((first + second).drop_last() =~= first + second.drop_last());
        lemma_total_area_concat(first, second.drop_last());
    }
}

/// Two rectangles share area exactly if some point lies in both.
pub proof fn lemma_overlaps_is_shared_point(a: Rect, b: Rect)
    ensures
        a.overlaps(b) <==> exists|px: int, py: int| a.contains(px, py) && b.contains(px, py),
{
    if a.overlaps(b) {
        let px = if a.x >= b.x {
            a.x
        } else {
            b.x
        };
        let py = if a.y >= b.y {
            a.y
        } else {
            b.y
        };
        assert(a.contains(px, py) && b.contains(px, py));
    }
}

/// A horizontal cut tiles the rectangle.
pub proof fn lemma_split_horizontally_tiles(whole: Rect, split_y: int)
    requires
        whole.split_horizontally(split_y) is Some,
    ensures
        ({
            let (top, bottom) = whole.split_horizontally(split_y).unwrap();
            &&& tiles(whole, seq![top, bottom])
            &&& top.area() + bottom.area() == whole.area()
            &&& !top.overlaps(bottom)
        }),
{
    let (top, bottom) = whole.split_horizontally(split_y).unwrap();
    let parts = seq![top, bottom];
    lemma_total_area_pair(top, bottom);
    lemma_area_splits(whole.width, top.height, bottom.height);
    assert forall|px: int, py: int| #[trigger] whole.contains(px, py) implies exists|i: int|
        0 <= i < parts.len() && (#[trigger] parts[i]).contains(px, py) by {
        let i: int = if py < split_y {
            0
        } else {
            1
        };
        assert(parts[i].contains(px, py));
    }
}

/// A vertical cut tiles the rectangle.
pub proof fn lemma_split_vertically_tiles(whole: Rect, split_x: int)
    requires
        whole.split_vertically(split_x) is Some,
    ensures
        ({
            let (left, right) = whole.split_vertically(split_x).unwrap();
            &&& tiles(whole, seq![left, right])
            &&& left.area() + right.area() == whole.area()
            &&& !left.overlaps(right)
        }),
{
    let (left, right) = whole.split_vertically(split_x).unwrap();
    let parts = seq![left, right];
    lemma_total_area_pair(left, right);
    lemma_area_splits(whole.height, left.width, right.width);
    assert forall|px: int, py: int| #[trigger] whole.contains(px, py) implies exists|i: int|
        0 <= i < parts.len() && (#[trigger] parts[i]).contains(px, py) by {
        let i: int = if px < split_x {
            0
        } else {
            1
        };
        assert(parts[i].contains(px, py));
    }
}

/// Where each of `parts` is tiled by its own run of rectangles, the runs one
/// after the other tile what `parts` tile.
pub proof fn lemma_tiles_refine_pair(
    whole: Rect,
    a: Rect,
    b: Rect,
    in_a: Seq<Rect>,
    in_b: Seq<Rect>,
)
    requires
        tiles(whole, seq![a, b]),
        tiles(a, in_a),
        tiles(b, in_b),
    ensures
        tiles(whole, in_a + in_b),
{
    let outer = seq![a, b];
    let all = in_a + in_b;
    lemma_total_area_concat(in_a, in_b);
    lemma_total_area_pair(a, b);
    assert forall|i: int| 0 <= i < all.len() implies (#[trigger] all[i]).within(whole) by {
        let part = if i < in_a.len() {
            a
        } else {
            b
        };
        assert(all[i].within(part) && part.within(whole));
    }
    assert forall|i: int, j: int|
        0 <= i < all.len() && 0 <= j < all.len() && i != j implies !(#[trigger] all[i]).overlaps(
        #[trigger] all[j],
    ) by {
        assert(!outer[0].overlaps(outer[1]) && !outer[1].overlaps(outer[0]));
    }
    assert forall|px: int, py: int| #[trigger] whole.contains(px, py) implies exists|i: int|
        0 <= i < all.len() && (#[trigger] all[i]).contains(px, py) by {
        let k = choose|k: int| 0 <= k < outer.len() && (#[trigger] outer[k]).contains(px, py);
        if k == 0 {
            let i = choose|i: int| 0 <= i < in_a.len() && (#[trigger] in_a[i]).contains(px, py);
            assert(all[i] == in_a[i]);
        } else {
            let i = choose|i: int| 0 <= i < in_b.len() && (#[trigger] in_b[i]).contains(px, py);
            assert(all[in_a.len() + i] == in_b[i]);
        }
    }
}

/// A cut into four quadrants tiles the rectangle.
pub proof fn lemma_split_four_ways_tiles(whole: Rect, split_x: int, split_y: int)
    requires
        whole.split_four_ways(split_x, split_y) is Some,
    ensures
        ({
            let ((tl, tr), (bl, br)) = whole.split_four_ways(split_x, split_y).unwrap();
            &&& tiles(whole, seq![tl, tr, bl, br])
            &&& tl.area() + tr.area() + bl.area() + br.area() == whole.area()
        }),
{
    let (top, bottom) = whole.split_horizontally(split_y).unwrap();
    let (tl, tr) = top.split_vertically(split_x).unwrap();
    let (bl, br) = bottom.split_vertically(split_x).unwrap();
    lemma_split_horizontally_tiles(whole, split_y);
    lemma_split_vertically_tiles(top, split_x);
    lemma_split_vertically_tiles(bottom, split_x);
    lemma_tiles_refine_pair(whole, top, bottom, seq![tl, tr], seq![bl, br]);
    assert(seq![tl, tr] + seq![bl, br] =~= seq![tl, tr, bl, br]);
}

} // verus!
