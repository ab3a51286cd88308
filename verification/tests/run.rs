use mondrian::cell::Cell;
use mondrian::color::Color;
use mondrian::config::{offset_bounds, Branch, Config, ConfigError};
use mondrian::partition::{draw_fill, generate, partition};
use mondrian::random::{draw_below, draw_offset, random_palette};

fn config(ratio_x: u32, ratio_y: u32, chance: u32, colors: u32) -> Config {
    Config {
        canvas_width: 800,
        canvas_height: 800,
        ratio_x,
        ratio_y,
        cell_fill_chance: chance,
        number_of_colors: colors,
        palette: vec![(34, 80, 149), (221, 1, 0), (250, 201, 1)],
        canvas_color: Color::new(255, 255, 255),
    }
}

fn share_area(a: &Cell, b: &Cell) -> bool {
    let left: u32 = a.x.max(b.x);
    let right: u32 = (a.x + a.width).min(b.x + b.width);
    let top: u32 = a.y.max(b.y);
    let bottom: u32 = (a.y + a.height).min(b.y + b.height);
    left < right && top < bottom
}

fn assert_tiles(root: &Cell, cells: &[Cell]) {
    let mut total: u64 = 0;
    for cell in cells {
        assert!(cell.width > 0 && cell.height > 0);
        assert!(root.x <= cell.x && cell.x + cell.width <= root.x + root.width);
        assert!(root.y <= cell.y && cell.y + cell.height <= root.y + root.height);
        total += cell.width as u64 * cell.height as u64;
    }
    assert_eq!(root.width as u64 * root.height as u64, total);
    let mut i: usize = 0;
    while i < cells.len() {
        let mut j: usize = i + 1;
        while j < cells.len() {
            assert!(!share_area(&cells[i], &cells[j]));
            j += 1;
        }
        i += 1;
    }
}

#[test]
fn draw_offset_stays_between_the_quarters() {
    let mut rng = rand::thread_rng();
    let mut seen_other_than_first = false;
    let mut i: u32 = 0;
    while i < 2000 {
        let offset: u32 = draw_offset(&mut rng, 800);
        assert!(200 <= offset && offset < 600);
        if offset != 200 {
            seen_other_than_first = true;
        }
        i += 1;
    }
    assert!(seen_other_than_first);
    let (low, high) = offset_bounds(5);
    let mut i: u32 = 0;
    while i < 200 {
        let offset: u32 = draw_offset(&mut rng, 5);
        assert!(low <= offset && offset < high);
        i += 1;
    }
    assert_eq!(0, draw_offset(&mut rng, 1));
}

#[test]
fn draw_below_stays_below_the_bound() {
    let mut rng = rand::thread_rng();
    let mut seen = [false; 100];
    let mut i: u32 = 0;
    while i < 20000 {
        let draw: u64 = draw_below(&mut rng, 100);
        assert!(draw < 100);
        seen[draw as usize] = true;
        i += 1;
    }
    assert!(seen.iter().filter(|hit| **hit).count() > 50);
    assert_eq!(0, draw_below(&mut rng, 1));
    assert!(draw_below(&mut rng, u64::MAX) < u64::MAX);
}

#[test]
fn random_palette_has_the_length_asked_for() {
    let mut rng = rand::thread_rng();
    assert_eq!(0, random_palette(&mut rng, 0).len());
    assert_eq!(1, random_palette(&mut rng, 1).len());
    let palette = random_palette(&mut rng, 300);
    assert_eq!(300, palette.len());
    let first = palette[0];
    assert!(palette.iter().any(|rgb| *rgb != first));
}

#[test]
fn draw_fill_without_colours_is_the_canvas_colour() {
    let mut rng = rand::thread_rng();
    let mut cfg = config(50, 50, 100, 0);
    cfg.canvas_color = Color::new(8, 44, 26);
    let mut i: u32 = 0;
    while i < 100 {
        assert_eq!((8, 44, 26), draw_fill(&cfg, &mut rng));
        i += 1;
    }
}

#[test]
fn draw_fill_gives_the_canvas_colour_or_a_colour_in_use() {
    let mut rng = rand::thread_rng();
    let cfg = config(50, 50, 50, 2);
    let mut canvas: u32 = 0;
    let mut first: u32 = 0;
    let mut second: u32 = 0;
    let mut i: u32 = 0;
    while i < 4000 {
        let rgb = draw_fill(&cfg, &mut rng);
        if rgb == (255, 255, 255) {
            canvas += 1;
        } else if rgb == (34, 80, 149) {
            first += 1;
        } else {
            assert_eq!((221, 1, 0), rgb);
            second += 1;
        }
        i += 1;
    }
    assert!(canvas > 1000 && first > 500 && second > 500);
}

#[test]
fn one_cut_into_four_where_the_ratios_are_half_the_canvas() {
    let cfg = config(400, 400, 30, 3);
    let root = Cell::new(0, 0, 800, 800);
    assert_eq!(Branch::FourWays, cfg.branch(&root));
    let ((tl, tr), (bl, br)) = root.split_four_ways(400, 400).unwrap();
    let leaves = [tl, tr, bl, br];
    assert_eq!(Cell::new(0, 0, 400, 400), leaves[0]);
    assert_eq!(Cell::new(400, 0, 400, 400), leaves[1]);
    assert_eq!(Cell::new(0, 400, 400, 400), leaves[2]);
    assert_eq!(Cell::new(400, 400, 400, 400), leaves[3]);
    for leaf in &leaves {
        assert_eq!(Branch::Leaf, cfg.branch(leaf));
    }
    assert_tiles(&root, &leaves);
}

#[test]
fn a_quadrant_is_appended_as_one_leaf() {
    let mut rng = rand::thread_rng();
    let cfg = config(400, 400, 0, 3);
    let kept = Cell::new_with_fill(1, 2, 3, 4, (5, 6, 7));
    let mut cells = vec![kept];
    partition(&Cell::new(400, 0, 400, 400), &cfg, &mut rng, &mut cells);
    assert_eq!(vec![kept, Cell::new(400, 0, 400, 400)], cells);
}

#[test]
fn generate_with_ratios_of_half_the_canvas() {
    let mut rng = rand::thread_rng();
    let cfg = config(400, 400, 30, 3);
    let mut run: u32 = 0;
    while run < 20 {
        let cells = generate(&cfg, &mut rng).unwrap();
        assert!(cells.len() >= 4);
        assert_tiles(&Cell::new(0, 0, 800, 800), &cells);
        for cell in &cells {
            assert!(cell.width <= 400 && cell.height <= 400);
        }
        run += 1;
    }
}

#[test]
fn generate_tiles_the_canvas_with_leaves() {
    let mut rng = rand::thread_rng();
    let cfg = config(50, 60, 30, 3);
    let cells = generate(&cfg, &mut rng).unwrap();
    assert_tiles(&Cell::new(0, 0, 800, 800), &cells);
    assert!(cells.len() >= 800 * 800 / (50 * 60));
    assert!(cells.len() <= 800 * 800);
    for cell in &cells {
        assert!(cell.width <= 50 && cell.height <= 60);
        assert_eq!(Branch::Leaf, cfg.branch(cell));
        let rgb = cell.get_fill();
        assert!(rgb == (255, 255, 255) || cfg.palette.contains(&rgb));
    }
}

#[test]
fn generate_on_a_canvas_that_is_no_square() {
    let mut rng = rand::thread_rng();
    let mut cfg = config(20, 35, 30, 3);
    cfg.canvas_width = 333;
    cfg.canvas_height = 97;
    let cells = generate(&cfg, &mut rng).unwrap();
    assert_tiles(&Cell::new(0, 0, 333, 97), &cells);
    for cell in &cells {
        assert!(cell.width <= 20 && cell.height <= 35);
    }
}

#[test]
fn generate_with_the_least_thresholds() {
    let mut rng = rand::thread_rng();
    let mut cfg = config(3, 3, 30, 3);
    cfg.canvas_width = 6;
    cfg.canvas_height = 7;
    let mut run: u32 = 0;
    while run < 50 {
        let cells = generate(&cfg, &mut rng).unwrap();
        assert_tiles(&Cell::new(0, 0, 6, 7), &cells);
        for cell in &cells {
            assert!(cell.width <= 3 && cell.height <= 3);
        }
        assert!(cells.len() <= 42);
        run += 1;
    }
}

#[test]
fn generate_differs_from_run_to_run() {
    let mut rng = rand::thread_rng();
    let cfg = config(50, 50, 30, 3);
    let first = generate(&cfg, &mut rng).unwrap();
    let mut differs = false;
    let mut run: u32 = 0;
    while run < 5 {
        if generate(&cfg, &mut rng).unwrap() != first {
            differs = true;
        }
        run += 1;
    }
    assert!(differs);
}

#[test]
fn generate_without_colours_fills_with_the_canvas_colour() {
    let mut rng = rand::thread_rng();
    let mut cfg = config(50, 50, 100, 0);
    cfg.canvas_color = Color::new(8, 44, 26);
    let cells = generate(&cfg, &mut rng).unwrap();
    for cell in &cells {
        assert_eq!((8, 44, 26), cell.get_fill());
    }
}

#[test]
fn generate_without_chance_fills_with_the_canvas_colour() {
    let mut rng = rand::thread_rng();
    let cfg = config(50, 50, 0, 3);
    let cells = generate(&cfg, &mut rng).unwrap();
    for cell in &cells {
        assert_eq!((255, 255, 255), cell.get_fill());
    }
}

#[test]
fn generate_with_full_chance_fills_from_the_palette() {
    let mut rng = rand::thread_rng();
    let mut cfg = config(50, 50, 100, 3);
    cfg.canvas_color = Color::new(8, 44, 26);
    let cells = generate(&cfg, &mut rng).unwrap();
    for cell in &cells {
        assert!(cfg.palette.contains(&cell.get_fill()));
    }
}

#[test]
fn generate_uses_the_colours_in_use_only() {
    let mut rng = rand::thread_rng();
    let cfg = config(50, 50, 100, 2);
    let cells = generate(&cfg, &mut rng).unwrap();
    for cell in &cells {
        assert!(cfg.palette[0..2].contains(&cell.get_fill()));
    }
}

#[test]
fn generate_gives_the_defect_of_the_settings() {
    let mut rng = rand::thread_rng();
    assert_eq!(Err(ConfigError::RatioTooSmall), generate(&config(2, 50, 30, 3), &mut rng));
    assert_eq!(Err(ConfigError::PaletteTooShort), generate(&config(50, 50, 30, 4), &mut rng));
    let mut small = config(50, 50, 30, 3);
    small.canvas_width = 4;
    assert_eq!(Err(ConfigError::CanvasTooSmall), generate(&small, &mut rng));
}
