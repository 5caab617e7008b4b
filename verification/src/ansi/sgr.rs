//! Decoding of SGR parameter lists into attributes.

use vstd::prelude::*;

use super::named::{ansi_color, NamedColor};
use super::rgb::Rgb;

verus! {

/// A colour as an SGR sequence names it.
#[derive(Debug, Clone, Copy, PartialEq, Eq, Structural)]
pub enum Color {
    /// A slot of the palette, by name.
    Named(NamedColor),
    /// A direct 24-bit colour.
    Spec(Rgb),
    /// A slot of the palette, by number.
    Indexed(u8),
}

/// Terminal character attributes.
#[derive(Debug, Clone, Copy, PartialEq, Eq, Structural)]
pub enum Attr {
    Reset,
    Bold,
    Dim,
    Italic,
    Underline,
    BlinkSlow,
    BlinkFast,
    Reverse,
    Hidden,
    Strike,
    CancelBold,
    CancelBoldDim,
    CancelItalic,
    CancelUnderline,
    CancelBlink,
    CancelReverse,
    CancelHidden,
    CancelStrike,
    Foreground(Color),
    Background(Color),
}

/// Why the parameters after a code 38 or 48 do not give a colour.
#[derive(Debug, Clone, Copy, PartialEq, Eq, Structural)]
pub enum SgrFault {
    /// The code is the last parameter: no selector follows it.
    MissingSelector,
    /// Selector 2 is followed by fewer than three parameters.
    MissingRgb,
    /// Selector 2 is followed by a channel outside 0–255.
    InvalidRgb { r: i64, g: i64, b: i64 },
    /// Selector 5 is the last parameter: no index follows it.
    MissingIndex,
    /// Selector 5 is followed by an index outside 0–255.
    InvalidIndex { index: i64 },
    /// The selector is neither 2 nor 5.
    UnexpectedSelector { selector: i64 },
}

/// A fault together with the position of the code 38 or 48 that it belongs to.
#[derive(Debug, Clone, Copy, PartialEq, Eq, Structural)]
pub struct SgrDiagnostic {
    pub position: usize,
    pub fault: SgrFault,
}

/// Whether `value` fits a colour channel or a palette index.
pub open spec fn is_byte(value: i64) -> bool {
    0 <= value <= 255
}

/// The attribute of a code that stands for itself, without further
/// parameters. The codes 38 and 48 are not among them.
pub open spec fn simple_attr(code: i64) -> Option<Attr> {
    if code == 0 {
        Some(Attr::Reset)
    } else if code == 1 {
        Some(Attr::Bold)
    } else if code == 2 {
        Some(Attr::Dim)
    } else if code == 3 {
        Some(Attr::Italic)
    } else if code == 4 {
        Some(Attr::Underline)
    } else if code == 5 {
        Some(Attr::BlinkSlow)
    } else if code == 6 {
        Some(Attr::BlinkFast)
    } else if code == 7 {
        Some(Attr::Reverse)
    } else if code == 8 {
        Some(Attr::Hidden)
    } else if code == 9 {
        Some(Attr::Strike)
    } else if code == 21 {
        Some(Attr::CancelBold)
    } else if code == 22 {
        Some(Attr::CancelBoldDim)
    } else if code == 23 {
        Some(Attr::CancelItalic)
    } else if code == 24 {
        Some(Attr::CancelUnderline)
    } else if code == 25 {
        Some(Attr::CancelBlink)
    } else if code == 27 {
        Some(Attr::CancelReverse)
    } else if code == 28 {
        Some(Attr::CancelHidden)
    } else if code == 29 {
        Some(Attr::CancelStrike)
    } else if 30 <= code <= 37 {
        Some(Attr::Foreground(Color::Named(ansi_color(code - 30))))
    } else if code == 39 {
        Some(Attr::Foreground(Color::Named(NamedColor::Foreground)))
    } else if 40 <= code <= 47 {
        Some(Attr::Background(Color::Named(ansi_color(code - 40))))
    } else if code == 49 {
        Some(Attr::Background(Color::Named(NamedColor::Background)))
    } else if 90 <= code <= 97 {
        Some(Attr::Foreground(Color::Named(ansi_color(code - 90 + 8))))
    } else if 100 <= code <= 107 {
        Some(Attr::Background(Color::Named(ansi_color(code - 100 + 8))))
    } else {
        None
    }
}

/// The colour that the parameters after the code at `at` spell out, with the
/// number of parameters that it takes beyond the code, or the reason why
/// they spell none.
pub open spec fn extended_color(params: Seq<i64>, at: int) -> Result<(Color, nat), SgrFault> {
    let left = params.len() - at;
    if left < 2 {
        Err(SgrFault::MissingSelector)
    } else if params[at + 1] == 2 {
        let (r, g, b) = (params[at + 2], params[at + 3], params[at + 4]);
        if left < 5 {
            Err(SgrFault::MissingRgb)
        } else if is_byte(r) && is_byte(g) && is_byte(b) {
            Ok((Color::Spec(Rgb { r: r as u8, g: g as u8, b: b as u8 }), 4nat))
        } else {
            Err(SgrFault::InvalidRgb { r, g, b })
        }
    } else if params[at + 1] == 5 {
        let index = params[at + 2];
        if left < 3 {
            Err(SgrFault::MissingIndex)
        } else if is_byte(index) {
            Ok((Color::Indexed(index as u8), 2nat))
        } else {
            Err(SgrFault::InvalidIndex { index })
        }
    } else {
        Err(SgrFault::UnexpectedSelector { selector: params[at + 1] })
    }
}

/// Whether `code` announces an extended colour.
pub open spec fn is_extended(code: i64) -> bool {
    code == 38 || code == 48
}

/// The entry that the decoder yields for the code at position `at`.
pub open spec fn attr_at(params: Seq<i64>, at: int) -> Option<Attr> {
    let code = params[at];
    if is_extended(code) {
        match extended_color(params, at) {
            Ok((color, _)) => Some(
                if code == 38 {
                    Attr::Foreground(color)
                } else {
                    Attr::Background(color)
                },
            ),
            Err(_) => None,
        }
    } else {
        simple_attr(code)
    }
}

/// The number of parameters that the entry for position `at` stands for: the
/// code itself and, where an extended colour was read, its parameters.
pub open spec fn width_at(params: Seq<i64>, at: int) -> nat {
    if is_extended(params[at]) {
        match extended_color(params, at) {
            Ok((_, extra)) => 1 + extra,
            Err(_) => 1,
        }
    } else {
        1
    }
}

/// The entries that the decoder yields for the parameters from `at` on.
pub open spec fn decode_from(params: Seq<i64>, at: int) -> Seq<Option<Attr>>
    decreases params.len() - at,
{
    if 0 <= at < params.len() {
        seq![attr_at(params, at)] + decode_from(params, at + width_at(params, at))
    } else {
        Seq::empty()
    }
}

/// The entries that the decoder yields for a whole parameter list.
pub open spec fn decoded(params: Seq<i64>) -> Seq<Option<Attr>> {
    decode_from(params, 0)
}

/// Reads the colour that follows the code 38 or 48 at `at`.
///
/// On success the colour comes with the number of parameters that it takes
/// beyond the code: four for a direct colour, two for an indexed one.
pub fn parse_sgr_color(parameters: &[i64], at: usize) -> (res: Result<(Color, usize), SgrFault>)
    ensures
        match extended_color(parameters@, at as int) {
            Ok((color, extra)) => res == Ok::<(Color, usize), SgrFault>((color, extra as usize)),
            Err(fault) => res == Err::<(Color, usize), SgrFault>(fault),
        },
{
    let len = parameters.len();
    if at >= len || len - at < 2 {
        return Err(SgrFault::MissingSelector);
    }
    match parameters[at + 1] {
        2 => {
            if len - at < 5 {
                return Err(SgrFault::MissingRgb);
            }
            let r = parameters[at + 2];
            let g = parameters[at + 3];
            let b = parameters[at + 4];
            if r < 0 || r > 255 || g < 0 || g > 255 || b < 0 || b > 255 {
                return Err(SgrFault::InvalidRgb { r, g, b });
            }
            Ok((Color::Spec(Rgb { r: r as u8, g: g as u8, b: b as u8 }), 4))
        },
        5 => {
            if len - at < 3 {
                return Err(SgrFault::MissingIndex);
            }
            let index = parameters[at + 2];
            if index < 0 || index > 255 {
                return Err(SgrFault::InvalidIndex { index });
            }
            Ok((Color::Indexed(index as u8), 2))
        },
        selector => Err(SgrFault::UnexpectedSelector { selector }),
    }
}

/// Decodes the parameters of one SGR sequence.
///
/// The result holds one entry per code, in the order of the parameters. An
/// extended colour (code 38 or 48) that reads well takes its parameters with
/// it; one that does not yields `None` and takes nothing, so that decoding
/// goes on with the parameter after the code. A code without a meaning
/// yields `None`.
pub fn attrs_from_sgr_parameters(parameters: &[i64]) -> (attrs: Vec<Option<Attr>>)
    ensures
        attrs@ == decoded(parameters@),
{
    let mut i: usize = 0;
    let mut attrs: Vec<Option<Attr>> = Vec::with_capacity(parameters.len());
    while i < parameters.len()
        invariant
            i <= parameters.len(),
            decoded(parameters@) == attrs@ + decode_from(parameters@, i as int),
        decreases parameters.len() - i,
    {
        let ghost start = i as int;
        let ghost before = attrs@;
        let attr = match parameters[i] {
            0 => Some(Attr::Reset),
            1 => Some(Attr::Bold),
            2 => Some(Attr::Dim),
            3 => Some(Attr::Italic),
            4 => Some(Attr::Underline),
            5 => Some(Attr::BlinkSlow),
            6 => Some(Attr::BlinkFast),
            7 => Some(Attr::Reverse),
            8 => Some(Attr::Hidden),
            9 => Some(Attr::Strike),
            21 => Some(Attr::CancelBold),
            22 => Some(Attr::CancelBoldDim),
            23 => Some(Attr::CancelItalic),
            24 => Some(Attr::CancelUnderline),
            25 => Some(Attr::CancelBlink),
            27 => Some(Attr::CancelReverse),
            28 => Some(Attr::CancelHidden),
            29 => Some(Attr::CancelStrike),
            30 => Some(Attr::Foreground(Color::Named(NamedColor::Black))),
            31 => Some(Attr::Foreground(Color::Named(NamedColor::Red))),
            32 => Some(Attr::Foreground(Color::Named(NamedColor::Green))),
            33 => Some(Attr::Foreground(Color::Named(NamedColor::Yellow))),
            34 => Some(Attr::Foreground(Color::Named(NamedColor::Blue))),
            35 => Some(Attr::Foreground(Color::Named(NamedColor::Magenta))),
            36 => Some(Attr::Foreground(Color::Named(NamedColor::Cyan))),
            37 => Some(Attr::Foreground(Color::Named(NamedColor::White))),
            38 => match parse_sgr_color(parameters, i) {
                Ok((color, extra)) => {
                    i += extra;
                    Some(Attr::Foreground(color))
                },
                Err(_) => None,
            },
            39 => Some(Attr::Foreground(Color::Named(NamedColor::Foreground))),
            40 => Some(Attr::Background(Color::Named(NamedColor::Black))),
            41 => Some(Attr::Background(Color::Named(NamedColor::Red))),
            42 => Some(Attr::Background(Color::Named(NamedColor::Green))),
            43 => Some(Attr::Background(Color::Named(NamedColor::Yellow))),
            44 => Some(Attr::Background(Color::Named(NamedColor::Blue))),
            45 => Some(Attr::Background(Color::Named(NamedColor::Magenta))),
            46 => Some(Attr::Background(Color::Named(NamedColor::Cyan))),
            47 => Some(Attr::Background(Color::Named(NamedColor::White))),
            48 => match parse_sgr_color(parameters, i) {
                Ok((color, extra)) => {
                    i += extra;
                    Some(Attr::Background(color))
                },
                Err(_) => None,
            },
            49 => Some(Attr::Background(Color::Named(NamedColor::Background))),
            90 => Some(Attr::Foreground(Color::Named(NamedColor::BrightBlack))),
            91 => Some(Attr::Foreground(Color::Named(NamedColor::BrightRed))),
            92 => Some(Attr::Foreground(Color::Named(NamedColor::BrightGreen))),
            93 => Some(Attr::Foreground(Color::Named(NamedColor::BrightYellow))),
            94 => Some(Attr::Foreground(Color::Named(NamedColor::BrightBlue))),
            95 => Some(Attr::Foreground(Color::Named(NamedColor::BrightMagenta))),
            96 => Some(Attr::Foreground(Color::Named(NamedColor::BrightCyan))),
            97 => Some(Attr::Foreground(Color::Named(NamedColor::BrightWhite))),
            100 => Some(Attr::Background(Color::Named(NamedColor::BrightBlack))),
            101 => Some(Attr::Background(Color::Named(NamedColor::BrightRed))),
            102 => Some(Attr::Background(Color::Named(NamedColor::BrightGreen))),
            103 => Some(Attr::Background(Color::Named(NamedColor::BrightYellow))),
            104 => Some(Attr::Background(Color::Named(NamedColor::BrightBlue))),
            105 => Some(Attr::Background(Color::Named(NamedColor::BrightMagenta))),
            106 => Some(Attr::Background(Color::Named(NamedColor::BrightCyan))),
            107 => Some(Attr::Background(Color::Named(NamedColor::BrightWhite))),
            _ => None,
        };
        attrs.push(attr);
        i += 1;
        proof {
            assert(attr == attr_at(parameters@, start));
            assert(i == start + width_at(parameters@, start));
            assert(attrs@ + decode_from(parameters@, i as int) =~= before + decode_from(
                parameters@,
                start,
            ));
        }
    }
    attrs
}

/// The faults of the extended colours from position `at` on, each with the
/// position of its code, in the order of the parameters.
pub open spec fn diagnostics_from(params: Seq<i64>, at: int) -> Seq<SgrDiagnostic>
    decreases params.len() - at,
{
    if 0 <= at < params.len() {
        let rest = diagnostics_from(params, at + width_at(params, at));
        if is_extended(params[at]) {
            match extended_color(params, at) {
                Ok(_) => rest,
                Err(fault) => seq![SgrDiagnostic { position: at as usize, fault }] + rest,
            }
        } else {
            rest
        }
    } else {
        Seq::empty()
    }
}

/// The faults that decoding a whole parameter list meets.
pub open spec fn diagnosed(params: Seq<i64>) -> Seq<SgrDiagnostic> {
    diagnostics_from(params, 0)
}

/// Lists what went wrong while decoding the parameters of one SGR sequence:
/// one diagnostic for each code 38 or 48 whose colour could not be read.
///
/// Decoding itself never fails; the attribute sequence holds `None` at each
/// such code.
pub fn sgr_diagnostics(parameters: &[i64]) -> (diagnostics: Vec<SgrDiagnostic>)
    ensures
        diagnostics@ == diagnosed(parameters@),
{
    let mut i: usize = 0;
    let mut diagnostics: Vec<SgrDiagnostic> = Vec::new();
    while i < parameters.len()
        invariant
            i <= parameters.len(),
            diagnosed(parameters@) == diagnostics@ + diagnostics_from(parameters@, i as int),
        decreases parameters.len() - i,
    {
        let ghost start = i as int;
        let ghost before = diagnostics@;
        if parameters[i] == 38 || parameters[i] == 48 {
            match parse_sgr_color(parameters, i) {
                Ok((_, extra)) => {
                    i += extra;
                },
                Err(fault) => {
                    diagnostics.push(SgrDiagnostic { position: i, fault });
                },
            }
        }
        i += 1;
        proof {
            assert(i == start + width_at(parameters@, start));
            assert(diagnostics@ + diagnostics_from(parameters@, i as int) =~= before
                + diagnostics_from(parameters@, start));
        }
    }
    diagnostics
}

proof fn lemma_decode_from_len(params: Seq<i64>, at: int)
    requires
        0 <= at <= params.len(),
    ensures
        decode_from(params, at).len() <= params.len() - at,
        at < params.len() ==> decode_from(params, at).len() >= 1,
    decreases params.len() - at,
{
    if at < params.len() {
        lemma_decode_from_len(params, at + width_at(params, at));
    }
}

/// Decoding yields at most one entry per parameter, and at least one entry
/// where there is a parameter.
pub proof fn lemma_decoded_len(params: Seq<i64>)
    ensures
        decoded(params).len() <= params.len(),
        params.len() > 0 ==> decoded(params).len() >= 1,
{
    lemma_decode_from_len(params, 0);
}

/// Whether no parameter announces an extended colour.
pub open spec fn all_simple(params: Seq<i64>) -> bool {
    forall|i: int| 0 <= i < params.len() ==> !is_extended(#[trigger] params[i])
}

proof fn lemma_decode_from_simple(params: Seq<i64>, at: int)
    requires
        all_simple(params),
        0 <= at <= params.len(),
    ensures
        decode_from(params, at).len() == params.len() - at,
        forall|i: int|
            0 <= i < params.len() - at ==> #[trigger] decode_from(params, at)[i] == simple_attr(
                params[at + i],
            ),
    decreases params.len() - at,
{
    if at < params.len() {
        assert(!is_extended(params[at]));
        lemma_decode_from_simple(params, at + 1);
        let rest = decode_from(params, at + 1);
        assert forall|i: int| 0 <= i < params.len() - at implies #[trigger] decode_from(
            params,
            at,
        )[i] == simple_attr(params[at + i]) by {
            if i > 0 {
                assert(decode_from(params, at)[i] == rest[i - 1]);
            }
        }
    }
}

/// Where no parameter announces an extended colour, decoding is entry for
/// parameter: each code yields its own attribute, or `None` where it has no
/// meaning, whatever stands before or after it.
pub proof fn lemma_decode_simple(params: Seq<i64>)
    requires
        all_simple(params),
    ensures
        decoded(params).len() == params.len(),
        forall|i: int|
            0 <= i < params.len() ==> #[trigger] decoded(params)[i] == simple_attr(params[i]),
{
    lemma_decode_from_simple(params, 0);
}

proof fn lemma_diagnostics_from(params: Seq<i64>, at: int)
    requires
        params.len() <= usize::MAX,
        0 <= at <= params.len(),
    ensures
        diagnostics_from(params, at).len() <= decode_from(params, at).len(),
        forall|k: int|
            0 <= k < diagnostics_from(params, at).len() ==> {
                let found = #[trigger] diagnostics_from(params, at)[k];
                &&& at <= found.position < params.len()
                &&& is_extended(params[found.position as int])
                &&& extended_color(params, found.position as int) == Err::<(Color, nat), SgrFault>(
                    found.fault,
                )
            },
    decreases params.len() - at,
{
    if at < params.len() {
        let next = at + width_at(params, at);
        lemma_diagnostics_from(params, next);
        let rest = diagnostics_from(params, next);
        let all = diagnostics_from(params, at);
        assert forall|k: int| 0 <= k < all.len() implies {
            let found = #[trigger] all[k];
            &&& at <= found.position < params.len()
            &&& is_extended(params[found.position as int])
            &&& extended_color(params, found.position as int) == Err::<(Color, nat), SgrFault>(
                found.fault,
            )
        } by {
            if all.len() == rest.len() {
                assert(all[k] == rest[k]);
            } else if k > 0 {
                assert(all[k] == rest[k - 1]);
            }
        }
    }
}

/// Every diagnostic points at a code 38 or 48 of the parameters and names
/// the fault of the colour that follows it. There are never more
/// diagnostics than decoded entries.
pub proof fn lemma_diagnosed(params: Seq<i64>)
    requires
        params.len() <= usize::MAX,
    ensures
        diagnosed(params).len() <= decoded(params).len(),
        forall|k: int|
            0 <= k < diagnosed(params).len() ==> {
                let found = #[trigger] diagnosed(params)[k];
                &&& found.position < params.len()
                &&& is_extended(params[found.position as int])
                &&& extended_color(params, found.position as int) == Err::<(Color, nat), SgrFault>(
                    found.fault,
                )
            },
{
    lemma_diagnostics_from(params, 0);
}

proof fn lemma_no_diagnostics_from(params: Seq<i64>, at: int)
    requires
        all_simple(params),
        0 <= at <= params.len(),
    ensures
        diagnostics_from(params, at) == Seq::<SgrDiagnostic>::empty(),
    decreases params.len() - at,
{
    if at < params.len() {
        assert(!is_extended(params[at]));
        lemma_no_diagnostics_from(params, at + 1);
    }
}

/// Parameters without a code 38 or 48 decode without a diagnostic.
pub proof fn lemma_simple_codes_have_no_diagnostics(params: Seq<i64>)
    requires
        all_simple(params),
    ensures
        diagnosed(params) == Seq::<SgrDiagnostic>::empty(),
{
    lemma_no_diagnostics_from(params, 0);
}

} // verus!
