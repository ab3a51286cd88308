use mondrian::cell::Cell;
use mondrian::color::Color;
use mondrian::config::{offset_bounds, Branch, Config, ConfigError, MIN_THRESHOLD, PERCENT};

fn config(ratio_x: u32, ratio_y: u32, chance: u32, colors: u32) -> Config {
    Config {
        canvas_width: 800,
        canvas_height: 800,
        ratio_x,
        ratio_y,
        cell_fill_chance: chance,
        number_of_colors: colors,
        palette: vec![(34, 80, 149), (221, 1, 0), (250, 201, 1), (1, 2, 3)],
        canvas_color: Color::new(255, 255, 255),
    }
}

#[test]
fn constants_have_their_values() {
    assert_eq!(3, MIN_THRESHOLD);
    assert_eq!(100, PERCENT);
}

#[test]
fn validate_accepts_the_usual_settings() {
    assert_eq!(Ok(()), config(50, 50, 30, 3).validate());
    assert_eq!(Ok(()), config(3, 3, 0, 0).validate());
    assert_eq!(Ok(()), config(400, 400, 100, 4).validate());
    assert_eq!(Ok(()), config(u32::MAX, u32::MAX, u32::MAX, 4).validate());
}

#[test]
fn validate_names_a_small_canvas() {
    let mut small = config(50, 50, 30, 3);
    small.canvas_width = 5;
    assert_eq!(Err(ConfigError::CanvasTooSmall), small.validate());
    small.canvas_width = 6;
    assert_eq!(Ok(()), small.validate());
    small.canvas_height = 0;
    assert_eq!(Err(ConfigError::CanvasTooSmall), small.validate());
}

#[test]
fn validate_names_a_small_ratio() {
    assert_eq!(Err(ConfigError::RatioTooSmall), config(2, 50, 30, 3).validate());
    assert_eq!(Err(ConfigError::RatioTooSmall), config(50, 2, 30, 3).validate());
    assert_eq!(Err(ConfigError::RatioTooSmall), config(0, 0, 30, 3).validate());
    assert_eq!(Err(ConfigError::RatioTooSmall), config(1, 1, 30, 3).validate());
}

#[test]
fn validate_names_a_short_palette() {
    assert_eq!(Err(ConfigError::PaletteTooShort), config(50, 50, 30, 5).validate());
    assert_eq!(Ok(()), config(50, 50, 30, 4).validate());
}

#[test]
fn validate_names_the_first_defect() {
    let mut bad = config(1, 1, 30, 9);
    assert_eq!(Err(ConfigError::RatioTooSmall), bad.validate());
    bad.canvas_height = 4;
    assert_eq!(Err(ConfigError::CanvasTooSmall), bad.validate());
}

#[test]
fn branch_cuts_what_is_larger_than_a_quadrant() {
    let cfg = config(50, 50, 30, 3);
    assert_eq!(Branch::FourWays, cfg.branch(&Cell::new(0, 0, 800, 800)));
    assert_eq!(Branch::FourWays, cfg.branch(&Cell::new(0, 0, 401, 401)));
    assert_eq!(Branch::Vertical, cfg.branch(&Cell::new(0, 0, 401, 400)));
    assert_eq!(Branch::Vertical, cfg.branch(&Cell::new(0, 0, 401, 10)));
    assert_eq!(Branch::Horizontal, cfg.branch(&Cell::new(0, 0, 400, 401)));
    assert_eq!(Branch::Horizontal, cfg.branch(&Cell::new(0, 0, 10, 401)));
}

#[test]
fn branch_cuts_what_exceeds_a_ratio() {
    let cfg = config(50, 60, 30, 3);
    assert_eq!(Branch::FourWays, cfg.branch(&Cell::new(0, 0, 400, 400)));
    assert_eq!(Branch::FourWays, cfg.branch(&Cell::new(0, 0, 51, 61)));
    assert_eq!(Branch::Horizontal, cfg.branch(&Cell::new(0, 0, 50, 61)));
    assert_eq!(Branch::Vertical, cfg.branch(&Cell::new(0, 0, 51, 60)));
    assert_eq!(Branch::Leaf, cfg.branch(&Cell::new(0, 0, 50, 60)));
    assert_eq!(Branch::Leaf, cfg.branch(&Cell::new(7, 9, 1, 1)));
}

#[test]
fn branch_puts_the_canvas_half_before_the_ratios() {
    let cfg = config(600, 600, 30, 3);
    assert_eq!(Branch::Vertical, cfg.branch(&Cell::new(0, 0, 500, 300)));
    assert_eq!(Branch::Horizontal, cfg.branch(&Cell::new(0, 0, 300, 500)));
    assert_eq!(Branch::Leaf, cfg.branch(&Cell::new(0, 0, 400, 400)));
}

#[test]
fn offset_bounds_are_the_quarters() {
    assert_eq!((200, 600), offset_bounds(800));
    assert_eq!((1, 3), offset_bounds(4));
    assert_eq!((1, 4), offset_bounds(5));
    assert_eq!((1, 6), offset_bounds(7));
    assert_eq!((0, 3), offset_bounds(3));
    assert_eq!((0, 1), offset_bounds(1));
    assert_eq!((0, 0), offset_bounds(0));
    assert_eq!((1073741823, 3221225472), offset_bounds(u32::MAX));
}

#[test]
fn draws_are_a_hundred_for_each_colour_in_use() {
    assert_eq!(300, config(50, 50, 30, 3).draws());
    assert_eq!(0, config(50, 50, 30, 0).draws());
    assert_eq!(100, config(50, 50, 0, 1).draws());
    assert_eq!(429496729500, config(50, 50, 30, u32::MAX).draws());
}

#[test]
fn fill_for_shares_the_chance_out_evenly() {
    let cfg = config(50, 50, 30, 3);
    assert_eq!((34, 80, 149), cfg.fill_for(0));
    assert_eq!((34, 80, 149), cfg.fill_for(29));
    assert_eq!((221, 1, 0), cfg.fill_for(30));
    assert_eq!((221, 1, 0), cfg.fill_for(59));
    assert_eq!((250, 201, 1), cfg.fill_for(60));
    assert_eq!((250, 201, 1), cfg.fill_for(89));
    assert_eq!((255, 255, 255), cfg.fill_for(90));
    assert_eq!((255, 255, 255), cfg.fill_for(299));
}

#[test]
fn fill_for_takes_the_share_exactly_where_it_is_no_whole_number() {
    let cfg = config(50, 50, 30, 4);
    assert_eq!((34, 80, 149), cfg.fill_for(0));
    assert_eq!((34, 80, 149), cfg.fill_for(29));
    assert_eq!((221, 1, 0), cfg.fill_for(30));
    assert_eq!((221, 1, 0), cfg.fill_for(59));
    assert_eq!((250, 201, 1), cfg.fill_for(60));
    assert_eq!((250, 201, 1), cfg.fill_for(89));
    assert_eq!((1, 2, 3), cfg.fill_for(90));
    assert_eq!((1, 2, 3), cfg.fill_for(119));
    assert_eq!((255, 255, 255), cfg.fill_for(120));
    assert_eq!((255, 255, 255), cfg.fill_for(399));
}

#[test]
fn fill_for_gives_every_colour_in_use_the_same_share() {
    let mut cfg = config(50, 50, 30, 50);
    cfg.palette = Vec::new();
    let mut i: u8 = 0;
    while i < 50 {
        cfg.palette.push((i, i, i));
        i += 1;
    }
    let mut hits = [0u32; 50];
    let mut canvas: u32 = 0;
    let mut draw: u64 = 0;
    while draw < cfg.draws() {
        let rgb = cfg.fill_for(draw);
        if rgb == (255, 255, 255) {
            canvas += 1;
        } else {
            hits[rgb.0 as usize] += 1;
        }
        draw += 1;
    }
    assert_eq!(5000, cfg.draws());
    assert_eq!(3500, canvas);
    for count in hits {
        assert_eq!(30, count);
    }
}

#[test]
fn fill_for_without_colours_is_the_canvas_colour() {
    let cfg = config(50, 50, 100, 0);
    let mut draw: u64 = 0;
    while draw < 100 {
        assert_eq!((255, 255, 255), cfg.fill_for(draw));
        draw += 1;
    }
}

#[test]
fn fill_for_without_chance_is_the_canvas_colour() {
    let cfg = config(50, 50, 0, 3);
    let mut draw: u64 = 0;
    while draw < cfg.draws() {
        assert_eq!((255, 255, 255), cfg.fill_for(draw));
        draw += 1;
    }
}

#[test]
fn fill_for_with_full_chance_is_a_palette_colour() {
    let cfg = config(50, 50, 100, 3);
    let mut draw: u64 = 0;
    while draw < cfg.draws() {
        let rgb = cfg.fill_for(draw);
        assert!(cfg.palette[0..3].contains(&rgb));
        draw += 1;
    }
    assert_eq!((34, 80, 149), cfg.fill_for(99));
    assert_eq!((221, 1, 0), cfg.fill_for(100));
    assert_eq!((221, 1, 0), cfg.fill_for(199));
    assert_eq!((250, 201, 1), cfg.fill_for(200));
    assert_eq!((250, 201, 1), cfg.fill_for(299));
}

#[test]
fn fill_for_takes_large_numbers() {
    let mut cfg = config(50, 50, u32::MAX, 4);
    let chance: u64 = u32::MAX as u64;
    assert_eq!((34, 80, 149), cfg.fill_for(chance - 1));
    assert_eq!((221, 1, 0), cfg.fill_for(chance));
    assert_eq!((1, 2, 3), cfg.fill_for(4 * chance - 1));
    assert_eq!((255, 255, 255), cfg.fill_for(4 * chance));
    assert_eq!((255, 255, 255), cfg.fill_for(u64::MAX));
    cfg.cell_fill_chance = 1;
    cfg.number_of_colors = 1;
    assert_eq!((34, 80, 149), cfg.fill_for(0));
    assert_eq!((255, 255, 255), cfg.fill_for(1));
}

#[test]
fn fill_for_uses_the_canvas_colour_of_the_settings() {
    let mut cfg = config(50, 50, 30, 3);
    cfg.canvas_color = Color::new(8, 44, 26);
    assert_eq!((8, 44, 26), cfg.fill_for(90));
    assert_eq!((34, 80, 149), cfg.fill_for(0));
}
