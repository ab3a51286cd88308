//! What a run may produce.
//!
//! A run draws its cuts and fills at random, so its result is not a function
//! of its input. A `Plan` records the draws of one run as a tree: which cell
//! was cut where, and what was drawn for the fill of each leaf. The cells
//! that a run may produce are the leaves of the plans that follow the
//! configuration, and what holds of every run is proved of every such plan.

use crate::cell::{
    lemma_split_horizontally_tiles, lemma_split_vertically_tiles, lemma_tiles_refine_pair, tiles,
    total_area, CellView, Rect,
};
use crate::config::{
    lemma_fill_index_is_first_reached, offset_allowed, Branch, ConfigView, PERCENT,
};
use vstd::prelude::*;

verus! {

/// The draws of one run on one rectangle.
pub enum Plan {
    /// The rectangle is kept whole, and `draw` decides its fill.
    Leaf { draw: int },
    /// The rectangle is cut by a vertical line `offset` to the right of its
    /// left edge.
    Vertical { offset: int, left: Box<Plan>, right: Box<Plan> },
    /// The rectangle is cut by a horizontal line `offset` below its top edge.
    Horizontal { offset: int, top: Box<Plan>, bottom: Box<Plan> },
    /// The rectangle is cut into four around the point `offset_x` to the
    /// right of its left edge and `offset_y` below its top edge.
    FourWays {
        offset_x: int,
        offset_y: int,
        top_left: Box<Plan>,
        top_right: Box<Plan>,
        bottom_left: Box<Plan>,
        bottom_right: Box<Plan>,
    },
}

impl Plan {
    /// The plan is one that a run under `cfg` may take on `rect`: each
    /// rectangle is treated as the configuration decides, each cut lies at
    /// an allowed offset, and each fill draw is one of the configuration.
    pub open spec fn follows(self, cfg: ConfigView, rect: Rect) -> bool
        decreases self,
    {
        match self {
            Plan::Leaf { draw } => cfg.branch(rect) == Branch::Leaf && cfg.is_draw(draw),
            Plan::Vertical { offset, left, right } => {
                &&& cfg.branch(rect) == Branch::Vertical
                &&& offset_allowed(rect.width, offset)
                &&& match rect.split_vertically(rect.x + offset) {
                    Some((near, far)) => left.follows(cfg, near) && right.follows(cfg, far),
                    None => false,
                }
            },
            Plan::Horizontal { offset, top, bottom } => {
                &&& cfg.branch(rect) == Branch::Horizontal
                &&& offset_allowed(rect.height, offset)
                &&& match rect.split_horizontally(rect.y + offset) {
                    Some((upper, lower)) => top.follows(cfg, upper) && bottom.follows(cfg, lower),
                    None => false,
                }
            },
            Plan::FourWays {
                offset_x,
                offset_y,
                top_left,
                top_right,
                bottom_left,
                bottom_right,
            } => {
                &&& cfg.branch(rect) == Branch::FourWays
                &&& offset_allowed(rect.width, offset_x)
                &&& offset_allowed(rect.height, offset_y)
                &&& match rect.split_four_ways(rect.x + offset_x, rect.y + offset_y) {
                    Some(((tl, tr), (bl, br))) => {
                        &&& top_left.follows(cfg, tl)
                        &&& top_right.follows(cfg, tr)
                        &&& bottom_left.follows(cfg, bl)
                        &&& bottom_right.follows(cfg, br)
                    },
                    None => false,
                }
            },
        }
    }

    /// The cells that the plan leaves of `rect`, in the order in which a run
    /// produces them: the parts of a cut one after the other, left before
    /// right and top before bottom.
    pub open spec fn leaves(self, cfg: ConfigView, rect: Rect) -> Seq<CellView>
        decreases self,
    {
        match self {
            Plan::Leaf { draw } => seq![CellView { rect, fill: cfg.fill(draw) }],
            Plan::Vertical { offset, left, right } => match rect.split_vertically(
                rect.x + offset,
            ) {
                Some((near, far)) => left.leaves(cfg, near) + right.leaves(cfg, far),
                None => Seq::empty(),
            },
            Plan::Horizontal { offset, top, bottom } => match rect.split_horizontally(
                rect.y + offset,
            ) {
                Some((upper, lower)) => top.leaves(cfg, upper) + bottom.leaves(cfg, lower),
                None => Seq::empty(),
            },
            Plan::FourWays {
                offset_x,
                offset_y,
                top_left,
                top_right,
                bottom_left,
                bottom_right,
            } => match rect.split_four_ways(rect.x + offset_x, rect.y + offset_y) {
                Some(((tl, tr), (bl, br))) => top_left.leaves(cfg, tl) + top_right.leaves(cfg, tr)
                    + bottom_left.leaves(cfg, bl) + bottom_right.leaves(cfg, br),
                None => Seq::empty(),
            },
        }
    }
}

impl Plan {
    /// The number of cuts on the longest way from the rectangle to a leaf.
    pub open spec fn depth(self) -> nat
        decreases self,
    {
        match self {
            Plan::Leaf { draw } => 0,
            Plan::Vertical { offset, left, right } => 1 + deeper(left.depth(), right.depth()),
            Plan::Horizontal { offset, top, bottom } => 1 + deeper(top.depth(), bottom.depth()),
            Plan::FourWays {
                offset_x,
                offset_y,
                top_left,
                top_right,
                bottom_left,
                bottom_right,
            } => 1 + deeper(
                deeper(top_left.depth(), top_right.depth()),
                deeper(bottom_left.depth(), bottom_right.depth()),
            ),
        }
    }
}

/// The larger of two depths.
pub open spec fn deeper(a: nat, b: nat) -> nat {
    if a >= b {
        a
    } else {
        b
    }
}

/// `cells` is what some run under `cfg` leaves of `rect`.
pub open spec fn is_partition(cfg: ConfigView, rect: Rect, cells: Seq<CellView>) -> bool {
    exists|plan: Plan| #[trigger] plan.follows(cfg, rect) && plan.leaves(cfg, rect) == cells
}

/// A plan that leaves `cells` of `rect`, where there is one.
pub open spec fn witness(cfg: ConfigView, rect: Rect, cells: Seq<CellView>) -> Plan {
    choose|plan: Plan| #[trigger] plan.follows(cfg, rect) && plan.leaves(cfg, rect) == cells
}

/// A rectangle that is kept whole is left as one cell with the fill of the
/// draw.
pub proof fn lemma_partition_leaf(cfg: ConfigView, rect: Rect, draw: int)
    requires
        cfg.branch(rect) == Branch::Leaf,
        cfg.is_draw(draw),
    ensures
        is_partition(cfg, rect, seq![(CellView { rect, fill: cfg.fill(draw) })]),
{
    let plan = Plan::Leaf { draw };
    assert(plan.follows(cfg, rect));
}

/// What is left of the left part, followed by what is left of the right
/// part, is left of a rectangle that is cut by a vertical line.
pub proof fn lemma_partition_vertical(
    cfg: ConfigView,
    rect: Rect,
    offset: int,
    in_left: Seq<CellView>,
    in_right: Seq<CellView>,
)
    requires
        cfg.branch(rect) == Branch::Vertical,
        offset_allowed(rect.width, offset),
        rect.split_vertically(rect.x + offset) matches Some((left, right)) && is_partition(
            cfg,
            left,
            in_left,
        ) && is_partition(cfg, right, in_right),
    ensures
        is_partition(cfg, rect, in_left + in_right),
{
    let (left, right) = rect.split_vertically(rect.x + offset).unwrap();
    let plan = Plan::Vertical {
        offset,
        left: Box::new(witness(cfg, left, in_left)),
        right: Box::new(witness(cfg, right, in_right)),
    };
    assert(plan.follows(cfg, rect));
}

/// What is left of the top part, followed by what is left of the bottom
/// part, is left of a rectangle that is cut by a horizontal line.
pub proof fn lemma_partition_horizontal(
    cfg: ConfigView,
    rect: Rect,
    offset: int,
    in_top: Seq<CellView>,
    in_bottom: Seq<CellView>,
)
    requires
        cfg.branch(rect) == Branch::Horizontal,
        offset_allowed(rect.height, offset),
        rect.split_horizontally(rect.y + offset) matches Some((top, bottom)) && is_partition(
            cfg,
            top,
            in_top,
        ) && is_partition(cfg, bottom, in_bottom),
    ensures
        is_partition(cfg, rect, in_top + in_bottom),
{
    let (top, bottom) = rect.split_horizontally(rect.y + offset).unwrap();
    let plan = Plan::Horizontal {
        offset,
        top: Box::new(witness(cfg, top, in_top)),
        bottom: Box::new(witness(cfg, bottom, in_bottom)),
    };
    assert(plan.follows(cfg, rect));
}

/// What is left of the four quadrants, the top row before the bottom row
/// and left before right, is left of a rectangle that is cut into four.
pub proof fn lemma_partition_four_ways(
    cfg: ConfigView,
    rect: Rect,
    offset_x: int,
    offset_y: int,
    in_tl: Seq<CellView>,
    in_tr: Seq<CellView>,
    in_bl: Seq<CellView>,
    in_br: Seq<CellView>,
)
    requires
        cfg.branch(rect) == Branch::FourWays,
        offset_allowed(rect.width, offset_x),
        offset_allowed(rect.height, offset_y),
        rect.split_four_ways(rect.x + offset_x, rect.y + offset_y) matches Some(
            ((tl, tr), (bl, br)),
        ) && is_partition(cfg, tl, in_tl) && is_partition(cfg, tr, in_tr) && is_partition(
            cfg,
            bl,
            in_bl,
        ) && is_partition(cfg, br, in_br),
    ensures
        is_partition(cfg, rect, in_tl + in_tr + in_bl + in_br),
{
    let ((tl, tr), (bl, br)) = rect.split_four_ways(rect.x + offset_x, rect.y + offset_y).unwrap();
    let plan = Plan::FourWays {
        offset_x,
        offset_y,
        top_left: Box::new(witness(cfg, tl, in_tl)),
        top_right: Box::new(witness(cfg, tr, in_tr)),
        bottom_left: Box::new(witness(cfg, bl, in_bl)),
        bottom_right: Box::new(witness(cfg, br, in_br)),
    };
    assert(plan.follows(cfg, rect));
}

/// The rectangles of some cells, in their order.
pub open spec fn rects(cells: Seq<CellView>) -> Seq<Rect> {
    cells.map_values(|cell: CellView| cell.rect)
}

/// A cell is a leaf of a run under `cfg`: it is not empty, it is no wider
/// and no higher than a ratio or half the canvas allows, and it is filled
/// with the canvas colour or with a palette colour in use.
pub open spec fn is_leaf(cfg: ConfigView, cell: CellView) -> bool {
    &&& cell.rect.width > 0
    &&& cell.rect.height > 0
    &&& cell.rect.width <= cfg.ratio_x
    &&& cell.rect.height <= cfg.ratio_y
    &&& cell.rect.width <= cfg.half_width()
    &&& cell.rect.height <= cfg.half_height()
    &&& is_fill(cfg, cell.fill)
}

/// A triple is a fill that a leaf may get: the canvas colour, unless the
/// whole range of draws selects a palette entry, or a palette entry in use,
/// if there is a chance at all.
pub open spec fn is_fill(cfg: ConfigView, rgb: (u8, u8, u8)) -> bool {
    ||| {
        &&& rgb == cfg.canvas_color
        &&& (cfg.number_of_colors == 0 || cfg.cell_fill_chance < PERCENT)
    }
    ||| {
        &&& cfg.cell_fill_chance > 0
        &&& exists|i: int| 0 <= i < cfg.number_of_colors && rgb == #[trigger] cfg.palette[i]
    }
}

/// Every draw gives a fill that a leaf may get.
pub proof fn lemma_fill_is_fill(cfg: ConfigView, draw: int)
    requires
        cfg.is_draw(draw),
        0 <= cfg.number_of_colors,
        0 <= cfg.cell_fill_chance,
    ensures
        is_fill(cfg, cfg.fill(draw)),
{
    lemma_fill_bounds(cfg, draw);
    lemma_fill_index_is_first_reached(cfg, draw);
}

/// The two ends of the fill chance. Where no palette colour is in use, or
/// the fill chance is zero, every draw gives the canvas colour. Where the
/// fill chance is the whole range of draws and a palette colour is in use,
/// every draw gives a palette colour in use.
pub proof fn lemma_fill_boundaries(cfg: ConfigView, draw: int)
    requires
        cfg.is_draw(draw),
        0 <= cfg.number_of_colors,
        0 <= cfg.cell_fill_chance,
    ensures
        cfg.number_of_colors == 0 ==> cfg.fill(draw) == cfg.canvas_color,
        cfg.cell_fill_chance == 0 ==> cfg.fill(draw) == cfg.canvas_color,
        cfg.cell_fill_chance >= PERCENT && cfg.number_of_colors > 0 ==> exists|i: int|
            0 <= i < cfg.number_of_colors && cfg.fill(draw) == #[trigger] cfg.palette[i],
{
    lemma_fill_bounds(cfg, draw);
    lemma_fill_index_is_first_reached(cfg, draw);
    match cfg.fill_index(draw) {
        Some(i) => {
            assert(cfg.fill(draw) == cfg.palette[i]);
        },
        None => {},
    }
}

/// A draw selects a palette entry only where there is a fill chance, and
/// misses all of them only where the fill chance is not the whole range.
proof fn lemma_fill_bounds(cfg: ConfigView, draw: int)
    requires
        cfg.is_draw(draw),
        0 <= cfg.number_of_colors,
        0 <= cfg.cell_fill_chance,
    ensures
        cfg.fill_index(draw) is Some ==> cfg.cell_fill_chance > 0 && cfg.number_of_colors > 0,
        cfg.fill_index(draw) is None ==> cfg.number_of_colors == 0 || cfg.cell_fill_chance
            < PERCENT,
{
    let count = cfg.number_of_colors;
    let chance = cfg.cell_fill_chance;
    if cfg.fill_index(draw) is Some {
        assert(chance > 0 && count > 0) by (nonlinear_arith)
            requires
                0 <= draw < count * chance,
                0 <= count,
                0 <= chance,
        ;
    } else if count > 0 {
        assert(chance < 100) by (nonlinear_arith)
            requires
                count * chance <= draw < 100 * count,
                0 < count,
        ;
    }
}

/// The two ends of the fill chance, of a leaf: its fill is the canvas colour
/// where no palette colour is in use or the fill chance is zero, and a
/// palette colour in use where the fill chance is the whole range of draws
/// and a palette colour is in use.
pub proof fn lemma_leaf_fill_boundaries(cfg: ConfigView, cell: CellView)
    requires
        is_leaf(cfg, cell),
    ensures
        cfg.number_of_colors == 0 ==> cell.fill == cfg.canvas_color,
        cfg.cell_fill_chance == 0 ==> cell.fill == cfg.canvas_color,
        cfg.cell_fill_chance >= PERCENT && cfg.number_of_colors > 0 ==> exists|i: int|
            0 <= i < cfg.number_of_colors && cell.fill == #[trigger] cfg.palette[i],
{
}

/// The leaves of a plan that follows the configuration tile the rectangle.
pub proof fn lemma_plan_tiles(plan: Plan, cfg: ConfigView, rect: Rect)
    requires
        plan.follows(cfg, rect),
    ensures
        tiles(rect, rects(plan.leaves(cfg, rect))),
    decreases plan,
{
    match plan {
        Plan::Leaf { draw } => {
            let parts = rects(plan.leaves(cfg, rect));
            reveal_with_fuel(total_area, 2);
            assert forall|px: int, py: int| #[trigger] rect.contains(px, py) implies exists|
                i: int,
            | 0 <= i < parts.len() && (#[trigger] parts[i]).contains(px, py) by {
                assert(parts[0].contains(px, py));
            }
        },
        Plan::Vertical { offset, left, right } => {
            let (near, far) = rect.split_vertically(rect.x + offset).unwrap();
            lemma_split_vertically_tiles(rect, rect.x + offset);
            lemma_plan_tiles(*left, cfg, near);
            lemma_plan_tiles(*right, cfg, far);
            let first = left.leaves(cfg, near);
            let second = right.leaves(cfg, far);
            lemma_tiles_refine_pair(rect, near, far, rects(first), rects(second));
            assert(rects(first + second) =~= rects(first) + rects(second));
        },
        Plan::Horizontal { offset, top, bottom } => {
            let (upper, lower) = rect.split_horizontally(rect.y + offset).unwrap();
            lemma_split_horizontally_tiles(rect, rect.y + offset);
            lemma_plan_tiles(*top, cfg, upper);
            lemma_plan_tiles(*bottom, cfg, lower);
            let first = top.leaves(cfg, upper);
            let second = bottom.leaves(cfg, lower);
            lemma_tiles_refine_pair(rect, upper, lower, rects(first), rects(second));
            assert(rects(first + second) =~= rects(first) + rects(second));
        },
        Plan::FourWays { offset_x, offset_y, top_left, top_right, bottom_left, bottom_right } => {
            let split_x = rect.x + offset_x;
            let split_y = rect.y + offset_y;
            let (upper, lower) = rect.split_horizontally(split_y).unwrap();
            let ((tl, tr), (bl, br)) = rect.split_four_ways(split_x, split_y).unwrap();
            lemma_split_horizontally_tiles(rect, split_y);
            lemma_split_vertically_tiles(upper, split_x);
            lemma_split_vertically_tiles(lower, split_x);
            lemma_plan_tiles(*top_left, cfg, tl);
            lemma_plan_tiles(*top_right, cfg, tr);
            lemma_plan_tiles(*bottom_left, cfg, bl);
            lemma_plan_tiles(*bottom_right, cfg, br);
            let in_tl = top_left.leaves(cfg, tl);
            let in_tr = top_right.leaves(cfg, tr);
            let in_bl = bottom_left.leaves(cfg, bl);
            let in_br = bottom_right.leaves(cfg, br);
            lemma_tiles_refine_pair(upper, tl, tr, rects(in_tl), rects(in_tr));
            lemma_tiles_refine_pair(lower, bl, br, rects(in_bl), rects(in_br));
            lemma_tiles_refine_pair(
                rect,
                upper,
                lower,
                rects(in_tl) + rects(in_tr),
                rects(in_bl) + rects(in_br),
            );
            assert(rects(in_tl + in_tr + in_bl + in_br) =~= (rects(in_tl) + rects(in_tr)) + (rects(
                in_bl,
            ) + rects(in_br)));
        },
    }
}

/// Under an accepted configuration, every cell that a plan leaves of a
/// rectangle that is not empty is a leaf.
pub proof fn lemma_plan_leaves_are_leaves(plan: Plan, cfg: ConfigView, rect: Rect)
    requires
        cfg.wf(),
        rect.width > 0,
        rect.height > 0,
        plan.follows(cfg, rect),
    ensures
        plan.leaves(cfg, rect).len() >= 1,
        forall|i: int|
            0 <= i < plan.leaves(cfg, rect).len() ==> is_leaf(
                cfg,
                #[trigger] plan.leaves(cfg, rect)[i],
            ),
    decreases plan,
{
    let cells = plan.leaves(cfg, rect);
    match plan {
        Plan::Leaf { draw } => {
            lemma_fill_is_fill(cfg, draw);
        },
        Plan::Vertical { offset, left, right } => {
            let (near, far) = rect.split_vertically(rect.x + offset).unwrap();
            lemma_plan_leaves_are_leaves(*left, cfg, near);
            lemma_plan_leaves_are_leaves(*right, cfg, far);
        },
        Plan::Horizontal { offset, top, bottom } => {
            let (upper, lower) = rect.split_horizontally(rect.y + offset).unwrap();
            lemma_plan_leaves_are_leaves(*top, cfg, upper);
            lemma_plan_leaves_are_leaves(*bottom, cfg, lower);
        },
        Plan::FourWays { offset_x, offset_y, top_left, top_right, bottom_left, bottom_right } => {
            let ((tl, tr), (bl, br)) = rect.split_four_ways(
                rect.x + offset_x,
                rect.y + offset_y,
            ).unwrap();
            lemma_plan_leaves_are_leaves(*top_left, cfg, tl);
            lemma_plan_leaves_are_leaves(*top_right, cfg, tr);
            lemma_plan_leaves_are_leaves(*bottom_left, cfg, bl);
            lemma_plan_leaves_are_leaves(*bottom_right, cfg, br);
        },
    }
}

/// Under an accepted configuration a run ends: every cut leaves parts that
/// are not empty and shorter than the side that was cut, so a plan on a
/// rectangle that is not empty is no deeper than the rectangle's width and
/// height together.
pub proof fn lemma_plan_depth(plan: Plan, cfg: ConfigView, rect: Rect)
    requires
        cfg.wf(),
        rect.width > 0,
        rect.height > 0,
        plan.follows(cfg, rect),
    ensures
        plan.depth() + 2 <= rect.width + rect.height,
    decreases plan,
{
    match plan {
        Plan::Leaf { draw } => {},
        Plan::Vertical { offset, left, right } => {
            let (near, far) = rect.split_vertically(rect.x + offset).unwrap();
            lemma_plan_depth(*left, cfg, near);
            lemma_plan_depth(*right, cfg, far);
        },
        Plan::Horizontal { offset, top, bottom } => {
            let (upper, lower) = rect.split_horizontally(rect.y + offset).unwrap();
            lemma_plan_depth(*top, cfg, upper);
            lemma_plan_depth(*bottom, cfg, lower);
        },
        Plan::FourWays { offset_x, offset_y, top_left, top_right, bottom_left, bottom_right } => {
            let ((tl, tr), (bl, br)) = rect.split_four_ways(
                rect.x + offset_x,
                rect.y + offset_y,
            ).unwrap();
            lemma_plan_depth(*top_left, cfg, tl);
            lemma_plan_depth(*top_right, cfg, tr);
            lemma_plan_depth(*bottom_left, cfg, bl);
            lemma_plan_depth(*bottom_right, cfg, br);
        },
    }
}

/// Rectangles that are not empty number at most their total area.
pub proof fn lemma_count_within_area(parts: Seq<Rect>)
    requires
        forall|i: int| 0 <= i < parts.len() ==> (#[trigger] parts[i]).width > 0 && parts[i].height > 0,
    ensures
        parts.len() <= total_area(parts),
    decreases parts.len(),
{
    if parts.len() > 0 {
        let last = parts.last();
        assert(last.width * last.height >= 1) by (nonlinear_arith)
            requires
                last.width > 0,
                last.height > 0,
        ;
        lemma_count_within_area(parts.drop_last());
    }
}

/// What holds of the cells of every run under an accepted configuration on
/// a rectangle that is not empty: they tile the rectangle, each is a leaf,
/// and there is at least one and at most one for each point of the
/// rectangle.
pub proof fn lemma_partition(cfg: ConfigView, rect: Rect, cells: Seq<CellView>)
    requires
        cfg.wf(),
        rect.width > 0,
        rect.height > 0,
        is_partition(cfg, rect, cells),
    ensures
        tiles(rect, rects(cells)),
        forall|i: int| 0 <= i < cells.len() ==> is_leaf(cfg, #[trigger] cells[i]),
        1 <= cells.len() <= rect.area(),
{
    let plan = witness(cfg, rect, cells);
    lemma_plan_tiles(plan, cfg, rect);
    lemma_plan_leaves_are_leaves(plan, cfg, rect);
    assert forall|i: int| 0 <= i < rects(cells).len() implies (#[trigger] rects(cells)[i]).width > 0
        && rects(cells)[i].height > 0 by {
        assert(is_leaf(cfg, cells[i]));
    }
    lemma_count_within_area(rects(cells));
}

} // verus!
