//! The settings of one run: the canvas, the thresholds that decide how a
//! cell is cut, and the palette with the chance that a cell is filled from it.

use crate::cell::{Cell, Rect};
use crate::color::Color;
use vstd::prelude::*;

verus! {

/// The least threshold that a run accepts. A side is cut only where it is
/// longer than a threshold, so with this threshold it is at least four long:
/// the shortest side whose quarter is not zero. Both parts of every cut then
/// hold at least one point.
pub const MIN_THRESHOLD: u32 = 3;

/// The end of the range of percentages: a fill draw stands for a percentage
/// from 0 up to, and without, this number.
pub const PERCENT: u32 = 100;

/// How a cell is treated: cut into four, cut by a vertical line into a left
/// and a right part, cut by a horizontal line into a top and a bottom part,
/// or kept whole and filled.
#[derive(Clone, Copy, Debug, PartialEq, Eq, Structural)]
pub enum Branch {
    FourWays,
    Vertical,
    Horizontal,
    Leaf,
}

/// Why a configuration is not accepted.
#[derive(Clone, Copy, Debug, PartialEq, Eq, Structural)]
pub enum ConfigError {
    /// Half of a side of the canvas is below `MIN_THRESHOLD`.
    CanvasTooSmall,
    /// A ratio is below `MIN_THRESHOLD`.
    RatioTooSmall,
    /// The palette has fewer entries than the number of colours in use.
    PaletteTooShort,
}

/// The settings of one run.
#[derive(Debug)]
pub struct Config {
    pub canvas_width: u32,
    pub canvas_height: u32,
    /// A cell wider than this is cut by a vertical line.
    pub ratio_x: u32,
    /// A cell higher than this is cut by a horizontal line.
    pub ratio_y: u32,
    /// The chance, in percent, that a leaf is filled from the palette.
    pub cell_fill_chance: u32,
    /// The number of palette entries in use, counted from the first.
    pub number_of_colors: u32,
    pub palette: Vec<(u8, u8, u8)>,
    /// The fill of a cell that gets no palette colour.
    pub canvas_color: Color,
}

/// A configuration as numbers and a sequence of triples.
pub struct ConfigView {
    pub canvas_width: int,
    pub canvas_height: int,
    pub ratio_x: int,
    pub ratio_y: int,
    pub cell_fill_chance: int,
    pub number_of_colors: int,
    pub palette: Seq<(u8, u8, u8)>,
    pub canvas_color: (u8, u8, u8),
}

impl View for Config {
    type V = ConfigView;

    open spec fn view(&self) -> ConfigView {
        ConfigView {
            canvas_width: self.canvas_width as int,
            canvas_height: self.canvas_height as int,
            ratio_x: self.ratio_x as int,
            ratio_y: self.ratio_y as int,
            cell_fill_chance: self.cell_fill_chance as int,
            number_of_colors: self.number_of_colors as int,
            palette: self.palette@,
            canvas_color: self.canvas_color@,
        }
    }
}

impl ConfigView {
    pub open spec fn half_width(self) -> int {
        self.canvas_width / 2
    }

    pub open spec fn half_height(self) -> int {
        self.canvas_height / 2
    }

    /// The first reason, if any, for which the configuration is not accepted.
    pub open spec fn defect(self) -> Option<ConfigError> {
        if self.half_width() < MIN_THRESHOLD || self.half_height() < MIN_THRESHOLD {
            Some(ConfigError::CanvasTooSmall)
        } else if self.ratio_x < MIN_THRESHOLD || self.ratio_y < MIN_THRESHOLD {
            Some(ConfigError::RatioTooSmall)
        } else if self.number_of_colors > self.palette.len() {
            Some(ConfigError::PaletteTooShort)
        } else {
            None
        }
    }

    /// The configuration is accepted: every threshold is at least
    /// `MIN_THRESHOLD`, the fill chance is not negative, and the palette
    /// holds the colours in use.
    pub open spec fn wf(self) -> bool {
        &&& self.half_width() >= MIN_THRESHOLD
        &&& self.half_height() >= MIN_THRESHOLD
        &&& self.ratio_x >= MIN_THRESHOLD
        &&& self.ratio_y >= MIN_THRESHOLD
        &&& 0 <= self.cell_fill_chance
        &&& 0 <= self.number_of_colors <= self.palette.len()
    }

    /// The whole canvas.
    pub open spec fn canvas(self) -> Rect {
        Rect { x: 0, y: 0, width: self.canvas_width, height: self.canvas_height }
    }

    /// How a rectangle is treated. A rectangle that is larger than a quadrant
    /// of the canvas is cut on each side that exceeds the half; one that is
    /// not is cut on each side that exceeds its ratio; one that exceeds
    /// nothing is a leaf.
    pub open spec fn branch(self, rect: Rect) -> Branch {
        if rect.width > self.half_width() && rect.height > self.half_height() {
            Branch::FourWays
        } else if rect.width > self.half_width() {
            Branch::Vertical
        } else if rect.height > self.half_height() {
            Branch::Horizontal
        } else if rect.height > self.ratio_y && rect.width > self.ratio_x {
            Branch::FourWays
        } else if rect.height > self.ratio_y {
            Branch::Horizontal
        } else if rect.width > self.ratio_x {
            Branch::Vertical
        } else {
            Branch::Leaf
        }
    }

    /// The number of values that a fill draw can take: `PERCENT` for each
    /// colour in use. A draw `draw` stands for the percentage
    /// `draw / number_of_colors`, so the draws are the percentages from 0 up
    /// to `PERCENT` in steps of one part in `number_of_colors`: the steps in
    /// which the fill chance is shared out between the colours.
    pub open spec fn draws(self) -> int {
        PERCENT * self.number_of_colors
    }

    /// `draw` is a fill draw. Where no colour is in use nothing is drawn,
    /// and zero stands for the draw.
    pub open spec fn is_draw(self, draw: int) -> bool {
        if self.number_of_colors == 0 {
            draw == 0
        } else {
            0 <= draw < self.draws()
        }
    }

    /// The draw lies below the upper end of the share of entry `i`: with the
    /// fill chance shared out evenly between the colours in use, the
    /// percentage `draw / number_of_colors` lies below
    /// `(i + 1) * cell_fill_chance / number_of_colors`.
    pub open spec fn reaches(self, draw: int, i: int) -> bool {
        draw < (i + 1) * self.cell_fill_chance
    }

    /// The palette entry that a draw selects: the first whose share it lies
    /// below, `None` where it lies below the share of no colour in use.
    pub open spec fn fill_index(self, draw: int) -> Option<int> {
        if draw < self.number_of_colors * self.cell_fill_chance {
            Some(draw / self.cell_fill_chance)
        } else {
            None
        }
    }

    /// The fill that a draw gives a leaf: the selected palette entry, or the
    /// canvas colour where none is selected.
    pub open spec fn fill(self, draw: int) -> (u8, u8, u8) {
        match self.fill_index(draw) {
            Some(i) => self.palette[i],
            None => self.canvas_color,
        }
    }
}

/// The offsets at which a side of length `side` may be cut, counted from the
/// side's start: from a quarter of the side up to, and without, the side less
/// a quarter.
pub open spec fn offset_allowed(side: int, offset: int) -> bool {
    side / 4 <= offset < side - side / 4
}

/// The bounds of the offsets at which a side may be cut: the first allowed
/// offset, and the first beyond the allowed ones.
pub fn offset_bounds(side: u32) -> (bounds: (u32, u32))
    ensures
        bounds.0 == side / 4,
        bounds.1 == side - side / 4,
        forall|offset: int| offset_allowed(side as int, offset) <==> bounds.0 <= offset < bounds.1,
{
    (side / 4, side - side / 4)
}

impl Config {
    /// Accepts the configuration or names the first reason against it.
    pub fn validate(&self) -> (checked: Result<(), ConfigError>)
        ensures
            checked is Ok <==> self@.wf(),
            checked == match self@.defect() {
                Some(error) => Err::<(), ConfigError>(error),
                None => Ok(()),
            },
    {
        if self.canvas_width / 2 < MIN_THRESHOLD || self.canvas_height / 2 < MIN_THRESHOLD {
            Err(ConfigError::CanvasTooSmall)
        } else if self.ratio_x < MIN_THRESHOLD || self.ratio_y < MIN_THRESHOLD {
            Err(ConfigError::RatioTooSmall)
        } else if self.number_of_colors as usize > self.palette.len() {
            Err(ConfigError::PaletteTooShort)
        } else {
            Ok(())
        }
    }

    /// Decides how a cell is treated.
    pub fn branch(&self, cell: &Cell) -> (branch: Branch)
        ensures
            branch == self@.branch(cell@.rect),
    {
        let half_width = self.canvas_width / 2;
        let half_height = self.canvas_height / 2;
        if cell.width > half_width && cell.height > half_height {
            Branch::FourWays
        } else if cell.width > half_width {
            Branch::Vertical
        } else if cell.height > half_height {
            Branch::Horizontal
        } else if cell.height > self.ratio_y && cell.width > self.ratio_x {
            Branch::FourWays
        } else if cell.height > self.ratio_y {
            Branch::Horizontal
        } else if cell.width > self.ratio_x {
            Branch::Vertical
        } else {
            Branch::Leaf
        }
    }

    /// The number of values that a fill draw can take.
    pub fn draws(&self) -> (draws: u64)
        ensures
            draws == self@.draws(),
    {
        mul_u32(PERCENT, self.number_of_colors)
    }

    /// The fill of a leaf for a draw. The palette is walked from its first
    /// entry, and the first entry whose share the draw lies below is the
    /// fill; a draw that lies below none leaves the canvas colour.
    pub fn fill_for(&self, draw: u64) -> (rgb: (u8, u8, u8))
        requires
            self@.number_of_colors <= self@.palette.len(),
        ensures
            rgb == self@.fill(draw as int),
    {
        let mut i: u32 = 0;
        while i < self.number_of_colors
            invariant
                i <= self.number_of_colors,
                self@.number_of_colors <= self@.palette.len(),
                forall|j: int| 0 <= j < i ==> !self@.reaches(draw as int, j),
            decreases self.number_of_colors - i,
        {
            let share_end: u64 = mul_u32(i + 1, self.cell_fill_chance);
            if draw < share_end {
                proof {
                    lemma_first_reached(self@, draw as int, i as int);
                }
                return self.palette[i as usize];
            }
            i += 1;
        }
        proof {
            lemma_none_reached(self@, draw as int);
        }
        self.canvas_color.get_rgb()
    }
}

/// The product of two 32-bit numbers, which 64 bits hold.
fn mul_u32(a: u32, b: u32) -> (product: u64)
    ensures
        product == a * b,
{
    assert(a * b <= 0xffff_ffff * 0xffff_ffff) by (nonlinear_arith)
        requires
            0 <= a <= 0xffff_ffff,
            0 <= b <= 0xffff_ffff,
    ;
    (a as u64) * (b as u64)
}

/// Entry `i` is reached exactly if `i` is not below the quotient of the draw
/// by the fill chance.
pub proof fn lemma_reaches_from_quotient(cfg: ConfigView, draw: int, i: int)
    requires
        0 < cfg.cell_fill_chance,
    ensures
        cfg.reaches(draw, i) <==> draw / cfg.cell_fill_chance <= i,
{
    let chance = cfg.cell_fill_chance;
    assert(draw < (i + 1) * chance <==> draw / chance <= i) by (nonlinear_arith)
        requires
            0 < chance,
    ;
}

/// The entry that a draw selects is the first that it reaches, and it is one
/// of the colours in use; a draw that selects none reaches none of them.
pub proof fn lemma_fill_index_is_first_reached(cfg: ConfigView, draw: int)
    requires
        0 <= draw,
        0 <= cfg.number_of_colors,
        0 <= cfg.cell_fill_chance,
    ensures
        match cfg.fill_index(draw) {
            Some(i) => {
                &&& 0 <= i < cfg.number_of_colors
                &&& cfg.reaches(draw, i)
                &&& forall|j: int| 0 <= j < i ==> !cfg.reaches(draw, j)
            },
            None => forall|j: int| 0 <= j < cfg.number_of_colors ==> !cfg.reaches(draw, j),
        },
{
    let count = cfg.number_of_colors;
    let chance = cfg.cell_fill_chance;
    match cfg.fill_index(draw) {
        Some(i) => {
            assert(0 < chance && 0 <= i < count) by (nonlinear_arith)
                requires
                    i == draw / chance,
                    0 <= draw < count * chance,
                    0 <= count,
                    0 <= chance,
            ;
            lemma_reaches_from_quotient(cfg, draw, i);
            assert forall|j: int| 0 <= j < i implies !cfg.reaches(draw, j) by {
                lemma_reaches_from_quotient(cfg, draw, j);
            }
        },
        None => {
            assert forall|j: int| 0 <= j < count implies !cfg.reaches(draw, j) by {
                assert(draw >= (j + 1) * chance) by (nonlinear_arith)
                    requires
                        0 <= j < count,
                        0 <= chance,
                        draw >= count * chance,
                ;
            }
        },
    }
}

/// An entry in use that is reached, while none before it is, is the one that
/// the draw selects.
proof fn lemma_first_reached(cfg: ConfigView, draw: int, i: int)
    requires
        0 <= draw,
        0 <= i < cfg.number_of_colors,
        0 <= cfg.cell_fill_chance,
        cfg.reaches(draw, i),
        forall|j: int| 0 <= j < i ==> !cfg.reaches(draw, j),
    ensures
        cfg.fill_index(draw) == Some(i),
{
    lemma_fill_index_is_first_reached(cfg, draw);
}

/// A draw that reaches no entry in use selects none.
proof fn lemma_none_reached(cfg: ConfigView, draw: int)
    requires
        0 <= draw,
        0 <= cfg.number_of_colors,
        0 <= cfg.cell_fill_chance,
        forall|j: int| 0 <= j < cfg.number_of_colors ==> !cfg.reaches(draw, j),
    ensures
        cfg.fill_index(draw) is None,
{
    lemma_fill_index_is_first_reached(cfg, draw);
}

} // verus!
