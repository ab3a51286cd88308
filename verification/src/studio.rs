//! The state behind the controls of the studio, and what each event of the
//! controls does to it.
//!
//! The state is plain data. An event changes it and leaves an effect for the
//! caller to carry out: an event to send, or an image to render. Numbers
//! arrive as the texts of the controls; a text that is no number, or a number
//! that is out of range, is replaced by the fallback of its field.

use crate::cell::{Cell, CellView};
use crate::color::{is_hex_color, rgb_of, Color};
use crate::config::{Config, ConfigError, ConfigView, MIN_THRESHOLD, PERCENT};
use crate::number::{number_of, parse_number};
use crate::partition::{generate, views};
use crate::plan::is_partition;
use crate::random::random_palette;
use rand::rngs::ThreadRng;
use vstd::prelude::*;
use vstd::string::*;

verus! {

/// The width of the canvas.
pub const WIDTH: u32 = 800;

/// The height of the canvas.
pub const HEIGHT: u32 = 800;

/// The resolutions at which the image can be rendered. The first is the one
/// that is set at the start and the fallback.
pub const RESOLUTIONS: [u32; 8] = [720, 900, 1080, 1280, 1440, 1600, 1920, 2048];

/// The palette that is used unless random colours are switched on: a blue, a
/// red and a yellow.
pub const DEFAULT_COLORS: [(u8, u8, u8); 3] = [(34, 80, 149), (221, 1, 0), (250, 201, 1)];

/// The ratio, on both axes, that is set at the start.
pub const INITIAL_RATIO: u32 = 50;

/// The ratio that replaces a text that is no number of at least
/// `MIN_THRESHOLD`.
pub const FALLBACK_RATIO: u32 = 20;

/// The fill chance that is set at the start, and that replaces a text that
/// is no number of at most `PERCENT`.
pub const FALLBACK_FILL_CHANCE: u32 = 30;

/// The number of colours that replaces a text that is no number.
pub const FALLBACK_NUMBER_OF_COLORS: u32 = 4;

/// What the controls send.
#[derive(Debug, PartialEq, Eq)]
pub enum Event {
    Generate,
    RenderImage,
    ToggleRandomColors,
    ToggleSaveCurrentColors,
    /// The text of the colour control: one character and six hexadecimal
    /// digits.
    UpdateBorderColor(String),
    /// The text of the colour control: one character and six hexadecimal
    /// digits.
    UpdateCanvasColor(String),
    UpdateCellFillChance(String),
    UpdateNumberOfColors(String),
    UpdateRatioX(String),
    UpdateRatioY(String),
    UpdateResolution(String),
}

/// What is left for the caller to do after an event.
#[derive(Clone, Copy, Debug, PartialEq, Eq, Structural)]
pub enum Effect {
    Nothing,
    /// The event `RenderImage` is to be sent.
    SendRenderImage,
    /// The event `UpdateNumberOfColors` is to be sent with this number as its
    /// text.
    SendNumberOfColors(usize),
    /// The image is to be rendered at this resolution.
    RenderImage(u32),
    /// No run was made, because the settings have this defect.
    Rejected(ConfigError),
}

/// What an event asks of the caller.
#[derive(Clone, Copy, Debug, PartialEq, Eq, Structural)]
pub struct Reaction {
    /// The view is to be drawn again.
    pub redraw: bool,
    pub effect: Effect,
}

/// The state behind the controls: the settings and the cells of the last run.
#[derive(Debug)]
pub struct Studio {
    pub max_width: u32,
    pub max_height: u32,
    pub ratio_x: u32,
    pub ratio_y: u32,
    pub resolution: u32,
    pub cell_fill_chance: u32,
    pub number_of_colors: u32,
    pub random_colors: bool,
    pub save_current_colors: bool,
    pub canvas_color: Color,
    pub border_color: Color,
    pub colors: Vec<(u8, u8, u8)>,
    pub cells: Vec<Cell>,
}

/// The state as numbers, triples and sequences.
pub struct StudioView {
    pub max_width: int,
    pub max_height: int,
    pub ratio_x: int,
    pub ratio_y: int,
    pub resolution: int,
    pub cell_fill_chance: int,
    pub number_of_colors: int,
    pub random_colors: bool,
    pub save_current_colors: bool,
    pub canvas_color: (u8, u8, u8),
    pub border_color: (u8, u8, u8),
    pub colors: Seq<(u8, u8, u8)>,
    pub cells: Seq<CellView>,
}

impl View for Studio {
    type V = StudioView;

    open spec fn view(&self) -> StudioView {
        StudioView {
            max_width: self.max_width as int,
            max_height: self.max_height as int,
            ratio_x: self.ratio_x as int,
            ratio_y: self.ratio_y as int,
            resolution: self.resolution as int,
            cell_fill_chance: self.cell_fill_chance as int,
            number_of_colors: self.number_of_colors as int,
            random_colors: self.random_colors,
            save_current_colors: self.save_current_colors,
            canvas_color: self.canvas_color@,
            border_color: self.border_color@,
            colors: self.colors@,
            cells: views(self.cells@),
        }
    }
}

/// A text of the colour control: one character, which is not looked at, and
/// six hexadecimal digits.
pub open spec fn is_color_text(text: Seq<char>) -> bool {
    text.len() == 7 && is_hex_color(text.skip(1))
}

/// The triple that a text of the colour control denotes.
pub open spec fn color_from(text: Seq<char>) -> (u8, u8, u8) {
    rgb_of(text.skip(1))
}

/// The ratio that a text sets.
pub open spec fn ratio_from(text: Seq<char>) -> int {
    match number_of(text) {
        Some(ratio) => if ratio >= MIN_THRESHOLD {
            ratio as int
        } else {
            FALLBACK_RATIO as int
        },
        None => FALLBACK_RATIO as int,
    }
}

/// The fill chance that a text sets.
pub open spec fn fill_chance_from(text: Seq<char>) -> int {
    match number_of(text) {
        Some(chance) => if chance <= PERCENT {
            chance as int
        } else {
            FALLBACK_FILL_CHANCE as int
        },
        None => FALLBACK_FILL_CHANCE as int,
    }
}

/// The number of colours that a text sets.
pub open spec fn number_of_colors_from(text: Seq<char>) -> int {
    match number_of(text) {
        Some(count) => count as int,
        None => FALLBACK_NUMBER_OF_COLORS as int,
    }
}

/// The image can be rendered at the resolution.
pub open spec fn is_resolution(resolution: int) -> bool {
    exists|i: int| 0 <= i < RESOLUTIONS@.len() && #[trigger] RESOLUTIONS@[i] == resolution
}

/// The resolution that a text sets.
pub open spec fn resolution_from(text: Seq<char>) -> int {
    match number_of(text) {
        Some(resolution) => if is_resolution(resolution as int) {
            resolution as int
        } else {
            RESOLUTIONS@[0] as int
        },
        None => RESOLUTIONS@[0] as int,
    }
}

impl Event {
    /// The event can be handled: the text of a colour event is a text of
    /// the colour control.
    pub open spec fn accepted(self) -> bool {
        match self {
            Event::UpdateBorderColor(text) => is_color_text(text@),
            Event::UpdateCanvasColor(text) => is_color_text(text@),
            _ => true,
        }
    }

    /// Tells whether the event can be handled.
    pub fn is_accepted(&self) -> (accepted: bool)
        ensures
            accepted == self.accepted(),
    {
        match self {
            Event::UpdateBorderColor(text) => reads_as_color(text.as_str()),
            Event::UpdateCanvasColor(text) => reads_as_color(text.as_str()),
            _ => true,
        }
    }
}

impl StudioView {
    /// The state at the start.
    pub open spec fn initial() -> StudioView {
        StudioView {
            max_width: WIDTH as int,
            max_height: HEIGHT as int,
            ratio_x: INITIAL_RATIO as int,
            ratio_y: INITIAL_RATIO as int,
            resolution: RESOLUTIONS@[0] as int,
            cell_fill_chance: FALLBACK_FILL_CHANCE as int,
            number_of_colors: DEFAULT_COLORS@.len() as int,
            random_colors: false,
            save_current_colors: false,
            canvas_color: (255u8, 255u8, 255u8),
            border_color: (0u8, 0u8, 0u8),
            colors: DEFAULT_COLORS@,
            cells: Seq::empty(),
        }
    }

    /// The settings that a run is made with.
    pub open spec fn config(self) -> ConfigView {
        ConfigView {
            canvas_width: self.max_width,
            canvas_height: self.max_height,
            ratio_x: self.ratio_x,
            ratio_y: self.ratio_y,
            cell_fill_chance: self.cell_fill_chance,
            number_of_colors: self.number_of_colors,
            palette: self.colors,
            canvas_color: self.canvas_color,
        }
    }

    /// `palette` may be the palette of a run that starts in this state: the
    /// default colours unless random colours are switched on; else the
    /// palette as it is where it is to be kept, and as many colours as are in
    /// use, whichever they are, where it is not.
    pub open spec fn runs_with(self, palette: Seq<(u8, u8, u8)>) -> bool {
        if !self.random_colors {
            palette == DEFAULT_COLORS@
        } else if self.save_current_colors {
            palette == self.colors
        } else {
            palette.len() == self.number_of_colors
        }
    }

    /// The event may take the state `self` to the state `next` and leave
    /// `reaction`. But for the colours and cuts that are drawn at random, the
    /// event decides both.
    pub open spec fn steps(self, event: Event, next: StudioView, reaction: Reaction) -> bool {
        match event {
            Event::Generate => {
                &&& next == (StudioView { colors: next.colors, cells: next.cells, ..self })
                &&& self.runs_with(next.colors)
                &&& reaction.redraw
                &&& match next.config().defect() {
                    Some(error) => next.cells.len() == 0 && reaction.effect == Effect::Rejected(
                        error,
                    ),
                    None => is_partition(next.config(), next.config().canvas(), next.cells)
                        && reaction.effect == Effect::SendRenderImage,
                }
            },
            Event::RenderImage => {
                &&& next == self
                &&& reaction.redraw
                &&& reaction.effect == Effect::RenderImage(self.resolution as u32)
            },
            Event::ToggleRandomColors => {
                &&& next == (StudioView {
                    random_colors: !self.random_colors,
                    colors: next.colors,
                    ..self
                })
                &&& next.colors.len() == self.number_of_colors
                &&& reaction.redraw
                &&& reaction.effect == if self.random_colors {
                    Effect::SendNumberOfColors(DEFAULT_COLORS@.len() as usize)
                } else {
                    Effect::Nothing
                }
            },
            Event::ToggleSaveCurrentColors => {
                &&& next == (StudioView { save_current_colors: !self.save_current_colors, ..self })
                &&& reaction.redraw
                &&& reaction.effect == Effect::SendNumberOfColors(self.colors.len() as usize)
            },
            Event::UpdateBorderColor(text) => {
                &&& next == (StudioView { border_color: color_from(text@), ..self })
                &&& reaction == (Reaction { redraw: true, effect: Effect::Nothing })
            },
            Event::UpdateCanvasColor(text) => {
                &&& next == (StudioView { canvas_color: color_from(text@), ..self })
                &&& reaction == (Reaction { redraw: true, effect: Effect::Nothing })
            },
            Event::UpdateCellFillChance(text) => {
                &&& next == (StudioView { cell_fill_chance: fill_chance_from(text@), ..self })
                &&& reaction == (Reaction { redraw: true, effect: Effect::Nothing })
            },
            Event::UpdateNumberOfColors(text) => {
                &&& next == (StudioView {
                    number_of_colors: number_of_colors_from(text@),
                    ..self
                })
                &&& reaction == (Reaction { redraw: true, effect: Effect::Nothing })
            },
            Event::UpdateRatioX(text) => {
                &&& next == (StudioView { ratio_x: ratio_from(text@), ..self })
                &&& reaction == (Reaction { redraw: true, effect: Effect::Nothing })
            },
            Event::UpdateRatioY(text) => {
                &&& next == (StudioView { ratio_y: ratio_from(text@), ..self })
                &&& reaction == (Reaction { redraw: true, effect: Effect::Nothing })
            },
            Event::UpdateResolution(text) => {
                &&& next == (StudioView { resolution: resolution_from(text@), ..self })
                &&& reaction == (Reaction { redraw: true, effect: Effect::Nothing })
            },
        }
    }
}

/// Tells whether a text is one of the colour control.
fn reads_as_color(text: &str) -> (ok: bool)
    ensures
        ok == is_color_text(text@),
{
    text.unicode_len() == 7 && Color::is_hex(text.substring_char(1, 7))
}

/// Reads a text of the colour control.
fn read_color(text: &str) -> (rgb: (u8, u8, u8))
    requires
        is_color_text(text@),
    ensures
        rgb == color_from(text@),
{
    Color::hex_to_rgb(text.substring_char(1, 7))
}

/// Reads the text of a ratio control.
fn read_ratio(text: &str) -> (ratio: u32)
    ensures
        ratio == ratio_from(text@),
{
    match parse_number(text) {
        Some(ratio) => if ratio >= MIN_THRESHOLD {
            ratio
        } else {
            FALLBACK_RATIO
        },
        None => FALLBACK_RATIO,
    }
}

/// Reads the text of the fill chance control.
fn read_fill_chance(text: &str) -> (chance: u32)
    ensures
        chance == fill_chance_from(text@),
{
    match parse_number(text) {
        Some(chance) => if chance <= PERCENT {
            chance
        } else {
            FALLBACK_FILL_CHANCE
        },
        None => FALLBACK_FILL_CHANCE,
    }
}

/// Reads the text of the control of the number of colours.
fn read_number_of_colors(text: &str) -> (count: u32)
    ensures
        count == number_of_colors_from(text@),
{
    match parse_number(text) {
        Some(count) => count,
        None => FALLBACK_NUMBER_OF_COLORS,
    }
}

/// Tells whether the image can be rendered at a resolution.
pub fn has_resolution(resolution: u32) -> (known: bool)
    ensures
        known == is_resolution(resolution as int),
{
    let mut i: usize = 0;
    while i < 8
        invariant
            i <= 8,
            forall|j: int| 0 <= j < i ==> RESOLUTIONS@[j] != resolution,
        decreases 8 - i,
    {
        if RESOLUTIONS[i] == resolution {
            return true;
        }
        i += 1;
    }
    false
}

/// Reads the text of the resolution control.
fn read_resolution(text: &str) -> (resolution: u32)
    ensures
        resolution == resolution_from(text@),
{
    match parse_number(text) {
        Some(resolution) => if has_resolution(resolution) {
            resolution
        } else {
            RESOLUTIONS[0]
        },
        None => RESOLUTIONS[0],
    }
}

/// The default palette.
pub fn default_colors() -> (colors: Vec<(u8, u8, u8)>)
    ensures
        colors@ == DEFAULT_COLORS@,
{
    let mut colors: Vec<(u8, u8, u8)> = Vec::new();
    colors.push(DEFAULT_COLORS[0]);
    colors.push(DEFAULT_COLORS[1]);
    colors.push(DEFAULT_COLORS[2]);
    colors
}

/// A copy of a palette.
fn copy_colors(colors: &Vec<(u8, u8, u8)>) -> (copy: Vec<(u8, u8, u8)>)
    ensures
        copy@ == colors@,
{
    let mut copy: Vec<(u8, u8, u8)> = Vec::new();
    let mut i: usize = 0;
    while i < colors.len()
        invariant
            i <= colors.len(),
            copy@ == colors@.take(i as int),
        decreases colors.len() - i,
    {
        copy.push(colors[i]);
        i += 1;
    }
    copy
}

impl Studio {
    /// The state at the start: the default palette on a white canvas with
    /// black borders, and no cells yet.
    pub fn new() -> (studio: Self)
        ensures
            studio@ == StudioView::initial(),
    {
        let studio = Studio {
            max_width: WIDTH,
            max_height: HEIGHT,
            ratio_x: INITIAL_RATIO,
            ratio_y: INITIAL_RATIO,
            resolution: RESOLUTIONS[0],
            cell_fill_chance: FALLBACK_FILL_CHANCE,
            number_of_colors: 3,
            random_colors: false,
            save_current_colors: false,
            canvas_color: Color::new(255, 255, 255),
            border_color: Color::new(0, 0, 0),
            colors: default_colors(),
            cells: Vec::new(),
        };
        assert(studio@.cells =~= Seq::empty());
        studio
    }

    /// The settings that a run is made with.
    pub fn config(&self) -> (config: Config)
        ensures
            config@ == self@.config(),
    {
        Config {
            canvas_width: self.max_width,
            canvas_height: self.max_height,
            ratio_x: self.ratio_x,
            ratio_y: self.ratio_y,
            cell_fill_chance: self.cell_fill_chance,
            number_of_colors: self.number_of_colors,
            palette: copy_colors(&self.colors),
            canvas_color: self.canvas_color,
        }
    }

    /// Tells whether the palette of the next run is already there, so that
    /// the number of colours is not for the controls to change: it is unless
    /// random colours are switched on and are not kept.
    pub fn keeps_palette(&self) -> (kept: bool)
        ensures
            kept == (!self.random_colors || self.save_current_colors),
    {
        !self.random_colors || (self.random_colors && self.save_current_colors)
    }

    /// Handles one event of the controls.
    pub fn update(&mut self, event: Event, rng: &mut ThreadRng) -> (reaction: Reaction)
        requires
            event.accepted(),
        ensures
            old(self)@.steps(event, final(self)@, reaction),
    {
        match event {
            Event::Generate => {
                if self.random_colors {
                    if !self.save_current_colors {
                        self.colors = random_palette(rng, self.number_of_colors);
                    }
                } else {
                    self.colors = default_colors();
                }
                let config = self.config();
                match generate(&config, rng) {
                    Ok(cells) => {
                        self.cells = cells;
                        Reaction { redraw: true, effect: Effect::SendRenderImage }
                    },
                    Err(error) => {
                        self.cells = Vec::new();
                        Reaction { redraw: true, effect: Effect::Rejected(error) }
                    },
                }
            },
            Event::RenderImage => Reaction {
                redraw: true,
                effect: Effect::RenderImage(self.resolution),
            },
            Event::ToggleRandomColors => {
                self.random_colors = !self.random_colors;
                self.colors = random_palette(rng, self.number_of_colors);
                if !self.random_colors {
                    Reaction { redraw: true, effect: Effect::SendNumberOfColors(3) }
                } else {
                    Reaction { redraw: true, effect: Effect::Nothing }
                }
            },
            Event::ToggleSaveCurrentColors => {
                self.save_current_colors = !self.save_current_colors;
                Reaction { redraw: true, effect: Effect::SendNumberOfColors(self.colors.len()) }
            },
            Event::UpdateBorderColor(text) => {
                self.border_color.set_rgb(read_color(text.as_str()));
                Reaction { redraw: true, effect: Effect::Nothing }
            },
            Event::UpdateCanvasColor(text) => {
                self.canvas_color.set_rgb(read_color(text.as_str()));
                Reaction { redraw: true, effect: Effect::Nothing }
            },
            Event::UpdateCellFillChance(text) => {
                self.cell_fill_chance = read_fill_chance(text.as_str());
                Reaction { redraw: true, effect: Effect::Nothing }
            },
            Event::UpdateNumberOfColors(text) => {
                self.number_of_colors = read_number_of_colors(text.as_str());
                Reaction { redraw: true, effect: Effect::Nothing }
            },
            Event::UpdateRatioX(text) => {
                self.ratio_x = read_ratio(text.as_str());
                Reaction { redraw: true, effect: Effect::Nothing }
            },
            Event::UpdateRatioY(text) => {
                self.ratio_y = read_ratio(text.as_str());
                Reaction { redraw: true, effect: Effect::Nothing }
            },
            Event::UpdateResolution(text) => {
                self.resolution = read_resolution(text.as_str());
                Reaction { redraw: true, effect: Effect::Nothing }
            },
        }
    }
}

} // verus!
