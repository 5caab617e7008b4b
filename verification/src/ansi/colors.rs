//! The colour configuration from which a palette is built.

use vstd::prelude::*;

use super::rgb::Rgb;

verus! {

/// Foreground and background, with the optional bright and dim foregrounds.
#[derive(Clone, Copy, Debug, PartialEq, Eq)]
pub struct PrimaryColors {
    pub background: Rgb,
    pub foreground: Rgb,
    pub bright_foreground: Option<Rgb>,
    pub dim_foreground: Option<Rgb>,
}

/// The background of the default configuration: `#1d1f21`.
pub open spec fn spec_default_background() -> Rgb {
    Rgb { r: 0x1d, g: 0x1f, b: 0x21 }
}

/// The foreground of the default configuration: `#c5c8c6`.
pub open spec fn spec_default_foreground() -> Rgb {
    Rgb { r: 0xc5, g: 0xc8, b: 0xc6 }
}

/// The background of the default configuration.
#[verifier::when_used_as_spec(spec_default_background)]
pub fn default_background() -> (color: Rgb)
    ensures
        color == spec_default_background(),
{
    Rgb { r: 0x1d, g: 0x1f, b: 0x21 }
}

/// The foreground of the default configuration.
#[verifier::when_used_as_spec(spec_default_foreground)]
pub fn default_foreground() -> (color: Rgb)
    ensures
        color == spec_default_foreground(),
{
    Rgb { r: 0xc5, g: 0xc8, b: 0xc6 }
}

impl PrimaryColors {
    /// The primary colours of the default configuration: the default
    /// background and foreground, and no bright or dim foreground.
    pub open spec fn spec_default() -> PrimaryColors {
        PrimaryColors {
            background: default_background(),
            foreground: default_foreground(),
            bright_foreground: None,
            dim_foreground: None,
        }
    }
}

impl Default for PrimaryColors {
    fn default() -> (primary: PrimaryColors)
        ensures
            primary == PrimaryColors::spec_default(),
    {
        PrimaryColors {
            background: default_background(),
            foreground: default_foreground(),
            bright_foreground: None,
            dim_foreground: None,
        }
    }
}

/// One colour for each of the eight standard names.
#[derive(Clone, Copy, Debug, PartialEq, Eq, Structural)]
pub struct AnsiColors {
    pub black: Rgb,
    pub red: Rgb,
    pub green: Rgb,
    pub yellow: Rgb,
    pub blue: Rgb,
    pub magenta: Rgb,
    pub cyan: Rgb,
    pub white: Rgb,
}

impl AnsiColors {
    /// The colour of the standard name in slot `slot`, black for slot 0 up
    /// to white for slot 7.
    pub open spec fn at(self, slot: int) -> Rgb
        recommends
            0 <= slot < 8,
    {
        if slot == 0 {
            self.black
        } else if slot == 1 {
            self.red
        } else if slot == 2 {
            self.green
        } else if slot == 3 {
            self.yellow
        } else if slot == 4 {
            self.blue
        } else if slot == 5 {
            self.magenta
        } else if slot == 6 {
            self.cyan
        } else {
            self.white
        }
    }
}

/// The standard colours of the default configuration.
pub open spec fn default_normal_colors() -> AnsiColors {
    AnsiColors {
        black: Rgb { r: 0x1d, g: 0x1f, b: 0x21 },
        red: Rgb { r: 0xcc, g: 0x66, b: 0x66 },
        green: Rgb { r: 0xb5, g: 0xbd, b: 0x68 },
        yellow: Rgb { r: 0xf0, g: 0xc6, b: 0x74 },
        blue: Rgb { r: 0x81, g: 0xa2, b: 0xbe },
        magenta: Rgb { r: 0xb2, g: 0x94, b: 0xbb },
        cyan: Rgb { r: 0x8a, g: 0xbe, b: 0xb7 },
        white: Rgb { r: 0xc5, g: 0xc8, b: 0xc6 },
    }
}

/// The bright colours of the default configuration.
pub open spec fn default_bright_colors() -> AnsiColors {
    AnsiColors {
        black: Rgb { r: 0x66, g: 0x66, b: 0x66 },
        red: Rgb { r: 0xd5, g: 0x4e, b: 0x53 },
        green: Rgb { r: 0xb9, g: 0xca, b: 0x4a },
        yellow: Rgb { r: 0xe7, g: 0xc5, b: 0x47 },
        blue: Rgb { r: 0x7a, g: 0xa6, b: 0xda },
        magenta: Rgb { r: 0xc3, g: 0x97, b: 0xd8 },
        cyan: Rgb { r: 0x70, g: 0xc0, b: 0xb1 },
        white: Rgb { r: 0xea, g: 0xea, b: 0xea },
    }
}

/// The eight standard colours of a configuration.
#[derive(Clone, Copy, Debug, PartialEq, Eq)]
pub struct NormalColors(pub AnsiColors);

impl Default for NormalColors {
    fn default() -> (normal: NormalColors)
        ensures
            normal.0 == default_normal_colors(),
    {
        NormalColors(
            AnsiColors {
                black: Rgb { r: 0x1d, g: 0x1f, b: 0x21 },
                red: Rgb { r: 0xcc, g: 0x66, b: 0x66 },
                green: Rgb { r: 0xb5, g: 0xbd, b: 0x68 },
                yellow: Rgb { r: 0xf0, g: 0xc6, b: 0x74 },
                blue: Rgb { r: 0x81, g: 0xa2, b: 0xbe },
                magenta: Rgb { r: 0xb2, g: 0x94, b: 0xbb },
                cyan: Rgb { r: 0x8a, g: 0xbe, b: 0xb7 },
                white: Rgb { r: 0xc5, g: 0xc8, b: 0xc6 },
            },
        )
    }
}

/// The eight bright colours of a configuration.
#[derive(Clone, Copy, Debug, PartialEq, Eq)]
pub struct BrightColors(pub AnsiColors);

impl Default for BrightColors {
    fn default() -> (bright: BrightColors)
        ensures
            bright.0 == default_bright_colors(),
    {
        BrightColors(
            AnsiColors {
                black: Rgb { r: 0x66, g: 0x66, b: 0x66 },
                red: Rgb { r: 0xd5, g: 0x4e, b: 0x53 },
                green: Rgb { r: 0xb9, g: 0xca, b: 0x4a },
                yellow: Rgb { r: 0xe7, g: 0xc5, b: 0x47 },
                blue: Rgb { r: 0x7a, g: 0xa6, b: 0xda },
                magenta: Rgb { r: 0xc3, g: 0x97, b: 0xd8 },
                cyan: Rgb { r: 0x70, g: 0xc0, b: 0xb1 },
                white: Rgb { r: 0xea, g: 0xea, b: 0xea },
            },
        )
    }
}

/// One override of the palette: the colour for slot `index`.
#[derive(Clone, Copy, Debug, PartialEq, Eq, Structural)]
pub struct IndexedColor {
    pub index: u8,
    pub color: Rgb,
}

impl Default for IndexedColor {
    /// Slot 0, black.
    fn default() -> (indexed: IndexedColor)
        ensures
            indexed == (IndexedColor { index: 0, color: Rgb { r: 0, g: 0, b: 0 } }),
    {
        IndexedColor { index: 0, color: Rgb::default() }
    }
}

/// The colour that the first override for slot `index` at or after position
/// `from` gives, if there is one.
pub open spec fn override_from(overrides: Seq<IndexedColor>, index: int, from: int) -> Option<Rgb>
    decreases overrides.len() - from,
{
    if 0 <= from < overrides.len() {
        if overrides[from].index == index {
            Some(overrides[from].color)
        } else {
            override_from(overrides, index, from + 1)
        }
    } else {
        None
    }
}

/// The colour that the override list gives to slot `index`: that of the
/// first override for the slot, if there is one.
pub open spec fn override_for(overrides: Seq<IndexedColor>, index: int) -> Option<Rgb> {
    override_from(overrides, index, 0)
}

/// Whether no override of the list is for slot `index`.
pub open spec fn not_overridden(overrides: Seq<IndexedColor>, index: int) -> bool {
    forall|k: int| 0 <= k < overrides.len() ==> (#[trigger] overrides[k]).index != index
}

/// Whether the override at position `k` is the first one for slot `index`.
pub open spec fn is_first_override(overrides: Seq<IndexedColor>, index: int, k: int) -> bool {
    &&& 0 <= k < overrides.len()
    &&& overrides[k].index == index
    &&& forall|j: int| 0 <= j < k ==> (#[trigger] overrides[j]).index != index
}

proof fn lemma_override_from(overrides: Seq<IndexedColor>, index: int, from: int)
    requires
        0 <= from <= overrides.len(),
        forall|j: int| 0 <= j < from ==> (#[trigger] overrides[j]).index != index,
    ensures
        match override_from(overrides, index, from) {
            Some(color) => exists|k: int|
                is_first_override(overrides, index, k) && overrides[k].color == color,
            None => not_overridden(overrides, index),
        },
    decreases overrides.len() - from,
{
    if from < overrides.len() {
        if overrides[from].index == index {
            assert(is_first_override(overrides, index, from));
        } else {
            lemma_override_from(overrides, index, from + 1);
        }
    }
}

/// A slot has an override exactly if some entry of the list is for it, and
/// then the first such entry decides: later entries for the same slot do
/// not count.
pub proof fn lemma_first_override_wins(overrides: Seq<IndexedColor>, index: int)
    ensures
        override_for(overrides, index) is None <==> not_overridden(overrides, index),
        forall|k: int|
            is_first_override(overrides, index, k) ==> override_for(overrides, index) == Some(
                overrides[k].color,
            ),
{
    lemma_override_from(overrides, index, 0);
    assert forall|k: int| is_first_override(overrides, index, k) implies override_for(
        overrides,
        index,
    ) == Some(overrides[k].color) by {
        let found = choose|f: int|
            is_first_override(overrides, index, f) && Some(overrides[f].color) == override_for(
                overrides,
                index,
            );
        assert(found == k);
    }
}

/// The mathematical content of a colour configuration.
pub struct ColorsView {
    pub primary: PrimaryColors,
    pub normal: AnsiColors,
    pub bright: AnsiColors,
    pub dim: Option<AnsiColors>,
    pub indexed_colors: Seq<IndexedColor>,
}

/// The seed of a palette: primary colours, the eight standard and the eight
/// bright colours, optional dim colours, and overrides for single slots of
/// the indexed range.
#[derive(Clone, Debug, PartialEq, Eq)]
pub struct Colors {
    pub primary: PrimaryColors,
    pub normal: NormalColors,
    pub bright: BrightColors,
    pub dim: Option<AnsiColors>,
    pub indexed_colors: Vec<IndexedColor>,
}

impl View for Colors {
    type V = ColorsView;

    open spec fn view(&self) -> ColorsView {
        ColorsView {
            primary: self.primary,
            normal: self.normal.0,
            bright: self.bright.0,
            dim: self.dim,
            indexed_colors: self.indexed_colors@,
        }
    }
}

impl Colors {
    /// The content of the default configuration.
    pub open spec fn spec_default() -> ColorsView {
        ColorsView {
            primary: PrimaryColors::spec_default(),
            normal: default_normal_colors(),
            bright: default_bright_colors(),
            dim: None,
            indexed_colors: Seq::empty(),
        }
    }

    /// The standard colours.
    pub fn normal(&self) -> (normal: &AnsiColors)
        ensures
            *normal == self@.normal,
    {
        &self.normal.0
    }

    /// The bright colours.
    pub fn bright(&self) -> (bright: &AnsiColors)
        ensures
            *bright == self@.bright,
    {
        &self.bright.0
    }

    /// The colour that the overrides give to slot `index`: that of the first
    /// override for the slot, if there is one.
    pub fn indexed_override(&self, index: u8) -> (found: Option<Rgb>)
        ensures
            found == override_for(self@.indexed_colors, index as int),
    {
        let mut i: usize = 0;
        while i < self.indexed_colors.len()
            invariant
                i <= self.indexed_colors.len(),
                override_for(self@.indexed_colors, index as int) == override_from(
                    self@.indexed_colors,
                    index as int,
                    i as int,
                ),
            decreases self.indexed_colors.len() - i,
        {
            if self.indexed_colors[i].index == index {
                return Some(self.indexed_colors[i].color);
            }
            i += 1;
        }
        None
    }
}

impl Default for Colors {
    fn default() -> (colors: Colors)
        ensures
            colors@ == Colors::spec_default(),
    {
        Colors {
            primary: PrimaryColors::default(),
            normal: NormalColors::default(),
            bright: BrightColors::default(),
            dim: None,
            indexed_colors: Vec::new(),
        }
    }
}

} // verus!
