//! Reads and writes the chart files of a rhythm game: a line-oriented text format in
//! sections, which holds the metadata of a beatmap, its timing points and its hit
//! objects.

pub mod beatmap;
pub mod caseless;
pub mod colours;
pub mod cursor;
pub mod error;
pub mod events;
pub mod grammar;
pub mod keyed;
pub mod model;
pub mod number;
pub mod outcomes;
pub mod parse;
pub mod readback;
pub mod sections;
pub mod serialize;
pub mod text;
pub mod wellformed;

pub use beatmap::{
    match_header_line, parse_beatmap, parse_hit_objects, parse_section, parse_timing_points,
    parse_version_string, skip_section, Section,
};
pub use colours::parse_colours;
pub use cursor::ParseState;
pub use error::{Error, Result};
pub use keyed::parse_kv_pair;
pub use model::{
    Beatmap, Colour, ColoursSection, Decimal, DifficultySection, EditorSection, GameMode,
    GeneralSection, HitCircle, HitObject, HitObjectExtras, HoldNote, MetadataSection, Slider,
    SliderType, Spinner, TimingPoint,
};
pub use grammar::{
    COLOUR_SKIP, COLOUR_SKIP_SHIFT, HIT_CIRCLE, HOLD_NOTE, KIND, NEW_COMBO, SLIDER, SPINNER,
};
pub use parse::{
    colour_skip_of, new_combo_of, parse_bool, parse_colour, parse_coord, parse_curve_points,
    parse_decimal, parse_extras, parse_hit_object, parse_mode, parse_num, parse_slider_type,
    parse_string, variant_of,
};
pub use serialize::{get_type, Parsable};
