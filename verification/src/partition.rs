//! The run itself: a canvas is cut into leaves, and each leaf is filled.

use crate::cell::{tiles, Cell, CellView};
use crate::config::{Branch, Config, ConfigError};
use crate::plan::{
    is_leaf, is_partition, lemma_partition, lemma_partition_four_ways, lemma_partition_horizontal,
    lemma_partition_leaf, lemma_partition_vertical, rects,
};
use crate::random::{draw_below, draw_offset};
use rand::rngs::ThreadRng;
use vstd::prelude::*;

verus! {

/// What some cells are, in their order.
pub open spec fn views(cells: Seq<Cell>) -> Seq<CellView> {
    cells.map_values(|cell: Cell| cell@)
}

/// Draws the fill of a leaf. Where no palette colour is in use nothing is
/// drawn, and the fill is the canvas colour.
pub fn draw_fill(config: &Config, rng: &mut ThreadRng) -> (rgb: (u8, u8, u8))
    requires
        config@.number_of_colors <= config@.palette.len(),
    ensures
        exists|draw: int| config@.is_draw(draw) && rgb == #[trigger] config@.fill(draw),
{
    if config.number_of_colors > 0 {
        let draw = draw_below(rng, config.draws());
        config.fill_for(draw)
    } else {
        assert(config.canvas_color@ == config@.fill(0)) by {
            assert(config@.number_of_colors * config@.cell_fill_chance == 0) by (nonlinear_arith)
                requires
                    config@.number_of_colors == 0,
            ;
        }
        config.canvas_color.get_rgb()
    }
}

/// Cuts `cell` until every part is a leaf, fills each leaf, and appends the
/// leaves to `cells` in the order in which they arise: the parts of a cut one
/// after the other, left before right and top before bottom.
pub fn partition(cell: &Cell, config: &Config, rng: &mut ThreadRng, cells: &mut Vec<Cell>)
    requires
        config@.wf(),
        cell@.rect.wf(),
        cell@.rect.right() <= u32::MAX,
        cell@.rect.bottom() <= u32::MAX,
    ensures
        old(cells)@.len() <= final(cells)@.len(),
        final(cells)@.take(old(cells)@.len() as int) == old(cells)@,
        is_partition(config@, cell@.rect, views(final(cells)@.skip(old(cells)@.len() as int))),
        tiles(cell@.rect, rects(views(final(cells)@.skip(old(cells)@.len() as int)))),
        1 <= final(cells)@.len() - old(cells)@.len() <= cell.width * cell.height,
        forall|i: int|
            old(cells)@.len() <= i < final(cells)@.len() ==> is_leaf(
                config@,
                #[trigger] final(cells)@[i]@,
            ),
{
    let ghost before = cells@;
    subdivide(cell, config, rng, cells);
    proof {
        let grown = views(cells@.skip(before.len() as int));
        lemma_partition(config@, cell@.rect, grown);
        assert forall|i: int| before.len() <= i < cells@.len() implies is_leaf(
            config@,
            #[trigger] cells@[i]@,
        ) by {
            assert(grown[i - before.len()] == cells@[i]@);
        }
    }
}

/// The cuts and fills of `partition`.
fn subdivide(cell: &Cell, config: &Config, rng: &mut ThreadRng, cells: &mut Vec<Cell>)
    requires
        config@.wf(),
        cell@.rect.wf(),
        cell@.rect.right() <= u32::MAX,
        cell@.rect.bottom() <= u32::MAX,
    ensures
        old(cells)@.len() <= final(cells)@.len(),
        final(cells)@.take(old(cells)@.len() as int) == old(cells)@,
        is_partition(config@, cell@.rect, views(final(cells)@.skip(old(cells)@.len() as int))),
    decreases cell.width + cell.height,
{
    let ghost before = cells@;
    match config.branch(cell) {
        Branch::Leaf => {
            let rgb = draw_fill(config, rng);
            cells.push(Cell::new_with_fill(cell.x, cell.y, cell.width, cell.height, rgb));
            proof {
                let draw = choose|draw: int|
                    config@.is_draw(draw) && rgb == #[trigger] config@.fill(draw);
                lemma_partition_leaf(config@, cell@.rect, draw);
                assert(grown(before, cells@) =~= seq![CellView { rect: cell@.rect, fill: rgb }]);
            }
        },
        Branch::Vertical => {
            let offset = draw_offset(rng, cell.width);
            let (left, right) = cell.split_vertically(cell.x + offset).unwrap();
            subdivide(&left, config, rng, cells);
            let ghost middle = cells@;
            subdivide(&right, config, rng, cells);
            proof {
                lemma_partition_vertical(
                    config@,
                    cell@.rect,
                    offset as int,
                    grown(before, middle),
                    grown(middle, cells@),
                );
                lemma_grown_twice(before, middle, cells@);
            }
        },
        Branch::Horizontal => {
            let offset = draw_offset(rng, cell.height);
            let (top, bottom) = cell.split_horizontally(cell.y + offset).unwrap();
            subdivide(&top, config, rng, cells);
            let ghost middle = cells@;
            subdivide(&bottom, config, rng, cells);
            proof {
                lemma_partition_horizontal(
                    config@,
                    cell@.rect,
                    offset as int,
                    grown(before, middle),
                    grown(middle, cells@),
                );
                lemma_grown_twice(before, middle, cells@);
            }
        },
        Branch::FourWays => {
            let offset_x = draw_offset(rng, cell.width);
            let offset_y = draw_offset(rng, cell.height);
            let ((tl, tr), (bl, br)) = cell.split_four_ways(
                cell.x + offset_x,
                cell.y + offset_y,
            ).unwrap();
            subdivide(&tl, config, rng, cells);
            let ghost after_tl = cells@;
            subdivide(&tr, config, rng, cells);
            let ghost after_tr = cells@;
            subdivide(&bl, config, rng, cells);
            let ghost after_bl = cells@;
            subdivide(&br, config, rng, cells);
            proof {
                lemma_partition_four_ways(
                    config@,
                    cell@.rect,
                    offset_x as int,
                    offset_y as int,
                    grown(before, after_tl),
                    grown(after_tl, after_tr),
                    grown(after_tr, after_bl),
                    grown(after_bl, cells@),
                );
                lemma_grown_twice(before, after_tl, after_tr);
                lemma_grown_twice(before, after_tr, after_bl);
                lemma_grown_twice(before, after_bl, cells@);
            }
        },
    }
}

/// What the cells are by which `after` is longer than `before`.
spec fn grown(before: Seq<Cell>, after: Seq<Cell>) -> Seq<CellView> {
    views(after.skip(before.len() as int))
}

/// Cells that were appended in two rounds were appended one round after the
/// other.
proof fn lemma_grown_twice(before: Seq<Cell>, middle: Seq<Cell>, after: Seq<Cell>)
    requires
        before.len() <= middle.len() <= after.len(),
        middle.take(before.len() as int) == before,
        after.take(middle.len() as int) == middle,
    ensures
        after.take(before.len() as int) == before,
        grown(before, after) == grown(before, middle) + grown(middle, after),
{
    assert(after.take(before.len() as int) =~= middle.take(before.len() as int));
    assert(grown(before, after) =~= grown(before, middle) + grown(middle, after)) by {
        assert forall|i: int| 0 <= i < middle.len() implies middle[i] == after[i] by {
            assert(middle[i] == after.take(middle.len() as int)[i]);
        }
    }
}

/// One run on the whole canvas: the leaves that tile it, in the order in
/// which they are to be painted. A configuration that is not accepted gives
/// its first defect and no run.
pub fn generate(config: &Config, rng: &mut ThreadRng) -> (run: Result<Vec<Cell>, ConfigError>)
    ensures
        run is Ok <==> config@.wf(),
        match run {
            Ok(cells) => {
                &&& is_partition(config@, config@.canvas(), views(cells@))
                &&& tiles(config@.canvas(), rects(views(cells@)))
                &&& forall|i: int| 0 <= i < cells@.len() ==> is_leaf(config@, #[trigger] cells@[i]@)
                &&& 1 <= cells@.len() <= config@.canvas_width * config@.canvas_height
            },
            Err(error) => config@.defect() == Some(error),
        },
{
    match config.validate() {
        Err(error) => Err(error),
        Ok(()) => {
            let root = Cell::new(0, 0, config.canvas_width, config.canvas_height);
            let mut cells: Vec<Cell> = Vec::new();
            partition(&root, config, rng, &mut cells);
            assert(cells@.skip(0) =~= cells@);
            Ok(cells)
        },
    }
}

} // verus!
