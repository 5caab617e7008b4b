//! The resolved palette: 269 colours derived from a configuration.

use vstd::prelude::*;

use super::colors::{lemma_first_override_wins, not_overridden, override_for, Colors, ColorsView};
use super::named::NamedColor;
use super::rgb::Rgb;

verus! {

/// The number of slots of a palette.
pub const COUNT: usize = 269;

/// One channel of a colour of the 6×6×6 cube, from its coordinate.
pub open spec fn cube_channel(coordinate: int) -> u8
    recommends
        0 <= coordinate < 6,
{
    if coordinate == 0 {
        0u8
    } else {
        (coordinate * 40 + 55) as u8
    }
}

/// The colour of the cube with the given coordinates.
pub open spec fn cube_color(r: int, g: int, b: int) -> Rgb
    recommends
        0 <= r < 6,
        0 <= g < 6,
        0 <= b < 6,
{
    Rgb { r: cube_channel(r), g: cube_channel(g), b: cube_channel(b) }
}

/// The gray of step `step` of the 24-step ramp.
pub open spec fn gray_color(step: int) -> Rgb
    recommends
        0 <= step < 24,
{
    let value = (step * 10 + 8) as u8;
    Rgb { r: value, g: value, b: value }
}

/// The colour that a configuration gives to a slot outside the indexed
/// range 16–255.
pub open spec fn named_entry(cfg: ColorsView, slot: int) -> Rgb
    recommends
        0 <= slot < 16 || 256 <= slot < COUNT,
{
    if slot < 8 {
        cfg.normal.at(slot)
    } else if slot < 16 {
        cfg.bright.at(slot - 8)
    } else if slot == 256 {
        cfg.primary.foreground
    } else if slot == 257 {
        cfg.primary.background
    } else if slot == 258 {
        Rgb { r: 0, g: 0, b: 0 }
    } else if slot < 267 {
        match cfg.dim {
            Some(dim) => dim.at(slot - 259),
            None => cfg.normal.at(slot - 259).dimmed(),
        }
    } else if slot == 267 {
        match cfg.primary.bright_foreground {
            Some(color) => color,
            None => cfg.primary.foreground,
        }
    } else {
        match cfg.primary.dim_foreground {
            Some(color) => color,
            None => cfg.primary.foreground.dimmed(),
        }
    }
}

/// The colour of a slot of the indexed range 16–255 where no override
/// applies: a colour of the cube up to slot 231, a gray of the ramp from
/// slot 232 on.
pub open spec fn derived_entry(slot: int) -> Rgb
    recommends
        16 <= slot < 256,
{
    if slot < 232 {
        cube_color((slot - 16) / 36, ((slot - 16) / 6) % 6, (slot - 16) % 6)
    } else {
        gray_color(slot - 232)
    }
}

/// The colour that a configuration gives to a slot of the indexed range
/// 16–255: that of the first override for the slot, else the derived one.
pub open spec fn indexed_entry(cfg: ColorsView, slot: int) -> Rgb
    recommends
        16 <= slot < 256,
{
    match override_for(cfg.indexed_colors, slot) {
        Some(color) => color,
        None => derived_entry(slot),
    }
}

/// The colour that a configuration gives to a slot of the palette.
pub open spec fn palette_entry(cfg: ColorsView, slot: int) -> Rgb
    recommends
        0 <= slot < COUNT,
{
    if 16 <= slot < 256 {
        indexed_entry(cfg, slot)
    } else {
        named_entry(cfg, slot)
    }
}

/// The palette that a configuration resolves to.
pub open spec fn resolved_palette(cfg: ColorsView) -> Seq<Rgb> {
    Seq::new(COUNT as nat, |slot: int| palette_entry(cfg, slot))
}

/// The resolved palette of a configuration.
///
/// The first 16 entries are the standard and bright named colours. Slots
/// 16–231 are the colour cube, slots 232–255 the grayscale ramp. Slot 256 is
/// the configured foreground, slot 257 the configured background, slot 258
/// the cursor colour. Slots 259–266 hold the dim colours, slot 267 the
/// bright foreground and slot 268 the dim foreground.
#[derive(Copy, Clone, Debug, PartialEq, Eq)]
pub struct List([Rgb; COUNT]);

impl View for List {
    type V = Seq<Rgb>;

    closed spec fn view(&self) -> Seq<Rgb> {
        self.0@
    }
}

impl<'a> From<&'a Colors> for List {
    /// Resolves a configuration to its palette.
    fn from(colors: &'a Colors) -> (list: List)
        ensures
            list@ == resolved_palette(colors@),
    {
        let mut list = List::black();
        list.fill_named(colors);
        list.fill_cube(colors);
        list.fill_gray_ramp(colors);
        proof {
            assert(list@ =~= resolved_palette(colors@));
            list.lemma_with_view();
        }
        list
    }
}

impl<'a> vstd::std_specs::convert::FromSpecImpl<&'a Colors> for List {
    open spec fn obeys_from_spec() -> bool {
        true
    }

    open spec fn from_spec(colors: &'a Colors) -> List {
        List::with_view(resolved_palette(colors@))
    }
}

impl core::ops::Index<usize> for List {
    type Output = Rgb;

    /// The colour in slot `slot`.
    fn index(&self, slot: usize) -> (color: &Rgb)
        ensures
            *color == self@[slot as int],
    {
        &self.0[slot]
    }
}

impl vstd::std_specs::core::IndexSpecImpl<usize> for List {
    /// A palette is indexed by the slots 0–268 only.
    open spec fn index_req(&self, slot: &usize) -> bool {
        *slot < COUNT
    }
}

impl core::ops::Index<NamedColor> for List {
    type Output = Rgb;

    /// The colour of the slot that `name` stands for.
    fn index(&self, name: NamedColor) -> (color: &Rgb)
        ensures
            *color == self@[name.spec_slot() as int],
    {
        &self.0[name.slot()]
    }
}

impl vstd::std_specs::core::IndexSpecImpl<NamedColor> for List {
    open spec fn index_req(&self, name: &NamedColor) -> bool {
        true
    }
}

impl core::ops::Index<u8> for List {
    type Output = Rgb;

    /// The colour in slot `index` of the range 0–255.
    fn index(&self, index: u8) -> (color: &Rgb)
        ensures
            *color == self@[index as int],
    {
        &self.0[index as usize]
    }
}

impl vstd::std_specs::core::IndexSpecImpl<u8> for List {
    open spec fn index_req(&self, index: &u8) -> bool {
        true
    }
}

impl List {
    /// The palette whose slots hold the colours of `slots`.
    pub closed spec fn with_view(slots: Seq<Rgb>) -> List
        recommends
            slots.len() == COUNT,
    {
        choose|list: List| list@ == slots
    }

    /// A palette is determined by the colours of its slots.
    pub proof fn lemma_with_view(self)
        ensures
            List::with_view(self@) == self,
    {
        let other = List::with_view(self@);
        assert(other@ == self@);
        assert(other.0 =~= self.0);
    }

    /// A palette has 269 slots.
    pub proof fn lemma_len(self)
        ensures
            self@.len() == COUNT,
    {
    }

    /// A palette in which every slot is black.
    pub fn black() -> (list: List)
        ensures
            list@ == Seq::new(COUNT as nat, |slot: int| Rgb { r: 0, g: 0, b: 0 }),
    {
        let black = Rgb { r: 0, g: 0, b: 0 };
        let list = List([black;COUNT]);
        assert(list.0 == vstd::array::spec_array_fill_for_copy_type::<Rgb, COUNT>(black));
        assert(list@ =~= Seq::new(COUNT as nat, |slot: int| black));
        list
    }

    fn set(&mut self, slot: usize, color: Rgb)
        requires
            slot < COUNT,
        ensures
            final(self)@ == old(self)@.update(slot as int, color),
    {
        self.0[slot] = color;
    }

    /// Fills the slots that carry a name: the standard and bright colours,
    /// foreground, background, cursor, the dim colours and the bright and
    /// dim foregrounds. Where the configuration holds no dim colours, each
    /// is the standard colour dimmed; likewise the dim foreground.
    pub fn fill_named(&mut self, colors: &Colors)
        ensures
            final(self)@.len() == COUNT,
            forall|slot: int|
                0 <= slot < 16 || 256 <= slot < COUNT ==> #[trigger] final(self)@[slot]
                    == named_entry(colors@, slot),
            forall|slot: int| 16 <= slot < 256 ==> #[trigger] final(self)@[slot] == old(self)@[slot],
    {
        // Normals.
        self.set(NamedColor::Black.slot(), colors.normal().black);
        self.set(NamedColor::Red.slot(), colors.normal().red);
        self.set(NamedColor::Green.slot(), colors.normal().green);
        self.set(NamedColor::Yellow.slot(), colors.normal().yellow);
        self.set(NamedColor::Blue.slot(), colors.normal().blue);
        self.set(NamedColor::Magenta.slot(), colors.normal().magenta);
        self.set(NamedColor::Cyan.slot(), colors.normal().cyan);
        self.set(NamedColor::White.slot(), colors.normal().white);

        // Brights.
        self.set(NamedColor::BrightBlack.slot(), colors.bright().black);
        self.set(NamedColor::BrightRed.slot(), colors.bright().red);
        self.set(NamedColor::BrightGreen.slot(), colors.bright().green);
        self.set(NamedColor::BrightYellow.slot(), colors.bright().yellow);
        self.set(NamedColor::BrightBlue.slot(), colors.bright().blue);
        self.set(NamedColor::BrightMagenta.slot(), colors.bright().magenta);
        self.set(NamedColor::BrightCyan.slot(), colors.bright().cyan);
        self.set(NamedColor::BrightWhite.slot(), colors.bright().white);
        self.set(
            NamedColor::BrightForeground.slot(),
            match colors.primary.bright_foreground {
                Some(color) => color,
                None => colors.primary.foreground,
            },
        );

        // Foreground and background.
        self.set(NamedColor::Foreground.slot(), colors.primary.foreground);
        self.set(NamedColor::Background.slot(), colors.primary.background);

        // Background for custom cursor colors.
        self.set(NamedColor::Cursor.slot(), Rgb::default());

        // Dims.
        self.set(
            NamedColor::DimForeground.slot(),
            match colors.primary.dim_foreground {
                Some(color) => color,
                None => colors.primary.foreground.dim(),
            },
        );
        match colors.dim {
            Some(ref dim) => {
                self.set(NamedColor::DimBlack.slot(), dim.black);
                self.set(NamedColor::DimRed.slot(), dim.red);
                self.set(NamedColor::DimGreen.slot(), dim.green);
                self.set(NamedColor::DimYellow.slot(), dim.yellow);
                self.set(NamedColor::DimBlue.slot(), dim.blue);
                self.set(NamedColor::DimMagenta.slot(), dim.magenta);
                self.set(NamedColor::DimCyan.slot(), dim.cyan);
                self.set(NamedColor::DimWhite.slot(), dim.white);
            },
            None => {
                self.set(NamedColor::DimBlack.slot(), colors.normal().black.dim());
                self.set(NamedColor::DimRed.slot(), colors.normal().red.dim());
                self.set(NamedColor::DimGreen.slot(), colors.normal().green.dim());
                self.set(NamedColor::DimYellow.slot(), colors.normal().yellow.dim());
                self.set(NamedColor::DimBlue.slot(), colors.normal().blue.dim());
                self.set(NamedColor::DimMagenta.slot(), colors.normal().magenta.dim());
                self.set(NamedColor::DimCyan.slot(), colors.normal().cyan.dim());
                self.set(NamedColor::DimWhite.slot(), colors.normal().white.dim());
            },
        }
    }

    /// Fills the slots 16–231 with the 6×6×6 colour cube. A slot for which
    /// the configuration holds an override takes the colour of the first
    /// such override instead.
    pub fn fill_cube(&mut self, colors: &Colors)
        ensures
            final(self)@.len() == COUNT,
            forall|slot: int|
                16 <= slot < 232 ==> #[trigger] final(self)@[slot] == indexed_entry(colors@, slot),
            forall|slot: int|
                0 <= slot < 16 || 232 <= slot < COUNT ==> #[trigger] final(self)@[slot] == old(
                    self,
                )@[slot],
    {
        let mut index: usize = 16;
        // Build colors.
        let mut r: u8 = 0;
        while r < 6
            invariant
                r <= 6,
                index == 16 + 36 * r,
                self@.len() == COUNT,
                forall|slot: int|
                    16 <= slot < index ==> #[trigger] self@[slot] == indexed_entry(colors@, slot),
                forall|slot: int|
                    0 <= slot < 16 || index <= slot < COUNT ==> #[trigger] self@[slot] == old(
                        self,
                    )@[slot],
            decreases 6 - r,
        {
            let mut g: u8 = 0;
            while g < 6
                invariant
                    r < 6,
                    g <= 6,
                    index == 16 + 36 * r + 6 * g,
                    self@.len() == COUNT,
                    forall|slot: int|
                        16 <= slot < index ==> #[trigger] self@[slot] == indexed_entry(
                            colors@,
                            slot,
                        ),
                    forall|slot: int|
                        0 <= slot < 16 || index <= slot < COUNT ==> #[trigger] self@[slot] == old(
                            self,
                        )@[slot],
                decreases 6 - g,
            {
                let mut b: u8 = 0;
                while b < 6
                    invariant
                        r < 6,
                        g < 6,
                        b <= 6,
                        index == 16 + 36 * r + 6 * g + b,
                        self@.len() == COUNT,
                        forall|slot: int|
                            16 <= slot < index ==> #[trigger] self@[slot] == indexed_entry(
                                colors@,
                                slot,
                            ),
                        forall|slot: int|
                            0 <= slot < 16 || index <= slot < COUNT ==> #[trigger] self@[slot]
                                == old(self)@[slot],
                    decreases 6 - b,
                {
                    // Override colors 16..232 with the config (if present).
                    let color = match colors.indexed_override(index as u8) {
                        Some(color) => color,
                        None => Rgb {
                            r: if r == 0 {
                                0
                            } else {
                                r * 40 + 55
                            },
                            g: if g == 0 {
                                0
                            } else {
                                g * 40 + 55
                            },
                            b: if b == 0 {
                                0
                            } else {
                                b * 40 + 55
                            },
                        },
                    };
                    self.set(index, color);
                    index += 1;
                    b += 1;
                }
                g += 1;
            }
            r += 1;
        }
    }

    /// Fills the slots 232–255 with the 24-step grayscale ramp. A slot for
    /// which the configuration holds an override takes the colour of the
    /// first such override instead.
    pub fn fill_gray_ramp(&mut self, colors: &Colors)
        ensures
            final(self)@.len() == COUNT,
            forall|slot: int|
                232 <= slot < 256 ==> #[trigger] final(self)@[slot] == indexed_entry(colors@, slot),
            forall|slot: int|
                0 <= slot < 232 || 256 <= slot < COUNT ==> #[trigger] final(self)@[slot] == old(
                    self,
                )@[slot],
    {
        let mut index: usize = 232;
        let mut i: u8 = 0;
        while i < 24
            invariant
                i <= 24,
                index == 232 + i,
                self@.len() == COUNT,
                forall|slot: int|
                    232 <= slot < index ==> #[trigger] self@[slot] == indexed_entry(colors@, slot),
                forall|slot: int|
                    0 <= slot < 232 || index <= slot < COUNT ==> #[trigger] self@[slot] == old(
                        self,
                    )@[slot],
            decreases 24 - i,
        {
            // Index of the color is number of named colors + number of cube colors + i.
            let color_index: u8 = 16 + 216 + i;

            // Override colors 232..256 with the config (if present).
            let color = match colors.indexed_override(color_index) {
                Some(color) => color,
                None => {
                    let value = i * 10 + 8;
                    Rgb { r: value, g: value, b: value }
                },
            };
            self.set(index, color);
            index += 1;
            i += 1;
        }
    }
}

/// The slot of the cube colour with the given coordinates.
pub open spec fn cube_slot(r: int, g: int, b: int) -> int
    recommends
        0 <= r < 6,
        0 <= g < 6,
        0 <= b < 6,
{
    16 + 36 * r + 6 * g + b
}

/// Equal configurations resolve to equal palettes, slot for slot.
pub proof fn lemma_palette_deterministic(a: Colors, b: Colors)
    requires
        a@ == b@,
    ensures
        resolved_palette(a@) == resolved_palette(b@),
        List::with_view(resolved_palette(a@)) == List::with_view(resolved_palette(b@)),
{
}

/// The slots 0–15 hold the standard and the bright colours of the
/// configuration, whatever the overrides say.
pub proof fn lemma_ansi_slots(cfg: ColorsView, slot: int)
    requires
        0 <= slot < 16,
    ensures
        slot < 8 ==> palette_entry(cfg, slot) == cfg.normal.at(slot),
        slot >= 8 ==> palette_entry(cfg, slot) == cfg.bright.at(slot - 8),
{
}

/// The colour cube: a slot of the cube without an override holds, in each
/// channel, 0 for the coordinate 0 and `coordinate * 40 + 55` otherwise.
pub proof fn lemma_cube(cfg: ColorsView, r: int, g: int, b: int)
    requires
        0 <= r < 6,
        0 <= g < 6,
        0 <= b < 6,
        not_overridden(cfg.indexed_colors, cube_slot(r, g, b)),
    ensures
        16 <= cube_slot(r, g, b) < 232,
        palette_entry(cfg, cube_slot(r, g, b)) == cube_color(r, g, b),
        palette_entry(cfg, cube_slot(r, g, b)).r == (if r == 0 {
            0
        } else {
            r * 40 + 55
        }),
        palette_entry(cfg, cube_slot(r, g, b)).g == (if g == 0 {
            0
        } else {
            g * 40 + 55
        }),
        palette_entry(cfg, cube_slot(r, g, b)).b == (if b == 0 {
            0
        } else {
            b * 40 + 55
        }),
{
    lemma_first_override_wins(cfg.indexed_colors, cube_slot(r, g, b));
}

/// The grayscale ramp: step `step` of the ramp, where it has no override,
/// holds `step * 10 + 8` in every channel.
pub proof fn lemma_gray_ramp(cfg: ColorsView, step: int)
    requires
        0 <= step < 24,
        not_overridden(cfg.indexed_colors, 232 + step),
    ensures
        palette_entry(cfg, 232 + step).r == step * 10 + 8,
        palette_entry(cfg, 232 + step).g == step * 10 + 8,
        palette_entry(cfg, 232 + step).b == step * 10 + 8,
{
    lemma_first_override_wins(cfg.indexed_colors, 232 + step);
}

/// A slot of the indexed range with an override holds the colour of the
/// first override for it.
pub proof fn lemma_overridden(cfg: ColorsView, slot: int, k: int)
    requires
        16 <= slot < 256,
        super::colors::is_first_override(cfg.indexed_colors, slot, k),
    ensures
        palette_entry(cfg, slot) == cfg.indexed_colors[k].color,
{
    lemma_first_override_wins(cfg.indexed_colors, slot);
}

/// Dimming: where the configuration holds no dim colours, each dim slot
/// holds the standard colour of the same name with every channel
/// multiplied by 0.66, the fraction dropped.
pub proof fn lemma_dim_derived(cfg: ColorsView, name: int)
    requires
        cfg.dim is None,
        0 <= name < 8,
    ensures
        palette_entry(cfg, 259 + name) == palette_entry(cfg, name).dimmed(),
        palette_entry(cfg, 259 + name).r == palette_entry(cfg, name).r as int * 66 / 100,
        palette_entry(cfg, 259 + name).g == palette_entry(cfg, name).g as int * 66 / 100,
        palette_entry(cfg, 259 + name).b == palette_entry(cfg, name).b as int * 66 / 100,
{
    palette_entry(cfg, name).lemma_dimmed();
}

/// Dimming of red: where the configuration holds no dim colours, the slot
/// of `DimRed` holds the colour of `Red` dimmed.
pub proof fn lemma_dim_red(cfg: ColorsView)
    requires
        cfg.dim is None,
    ensures
        palette_entry(cfg, NamedColor::DimRed.spec_slot() as int) == palette_entry(
            cfg,
            NamedColor::Red.spec_slot() as int,
        ).dimmed(),
        palette_entry(cfg, NamedColor::DimRed.spec_slot() as int) == cfg.normal.red.dimmed(),
{
}

/// Explicit dim colours are taken as they are.
pub proof fn lemma_dim_configured(cfg: ColorsView, name: int)
    requires
        cfg.dim is Some,
        0 <= name < 8,
    ensures
        palette_entry(cfg, 259 + name) == cfg.dim->0.at(name),
{
}

} // verus!
