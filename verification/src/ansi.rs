//! Colours, the resolved palette and the SGR attribute decoder.

pub mod colors;
pub mod list;
pub mod named;
pub mod rgb;
pub mod sgr;

pub use self::colors::{
    default_background, default_foreground, AnsiColors, BrightColors, Colors, IndexedColor,
    NormalColors, PrimaryColors,
};
pub use self::list::{List, COUNT};
pub use self::named::NamedColor;
pub use self::rgb::{parse_color, ParseColorError, Rgb};
pub use self::sgr::{
    attrs_from_sgr_parameters, parse_sgr_color, sgr_diagnostics, Attr, Color, SgrDiagnostic,
    SgrFault,
};
